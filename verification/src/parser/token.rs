use crate::cache::{CacheId, CacheSpan};
use crate::parser::error::{PErrV, PError, PResult};
use vstd::prelude::*;
use vstd::string::StringExecFns;

verus! {

/// One lexical token. Literal tokens carry the raw text the tokenizer cut
/// out of the source; the parser turns it into a value.
#[derive(Debug, PartialEq, Eq)]
pub enum Token {
    Nil,
    Bool(bool),
    Int(String),
    UFloat(String),
    String(String),
    Ident(String),
    OpenParen,
    CloseParen,
    OpenBrace,
    CloseBrace,
    Comma,
    Colon,
    Question,
    Add,
    Sub,
    Mul,
    Div,
    Mod,
    Pow,
    Eq,
    Lt,
    Gt,
    NEq,
    LtEq,
    GtEq,
    Not,
    And,
    Or,
    Assign,
    Walrus,
    Let,
    While,
    Func,
}

impl Clone for Token {
    fn clone(&self) -> (r: Self)
        ensures
            r == *self,
    {
        match self {
            Token::Nil => Token::Nil,
            Token::Bool(b) => Token::Bool(*b),
            Token::Int(s) => Token::Int(s.clone()),
            Token::UFloat(s) => Token::UFloat(s.clone()),
            Token::String(s) => Token::String(s.clone()),
            Token::Ident(s) => Token::Ident(s.clone()),
            Token::OpenParen => Token::OpenParen,
            Token::CloseParen => Token::CloseParen,
            Token::OpenBrace => Token::OpenBrace,
            Token::CloseBrace => Token::CloseBrace,
            Token::Comma => Token::Comma,
            Token::Colon => Token::Colon,
            Token::Question => Token::Question,
            Token::Add => Token::Add,
            Token::Sub => Token::Sub,
            Token::Mul => Token::Mul,
            Token::Div => Token::Div,
            Token::Mod => Token::Mod,
            Token::Pow => Token::Pow,
            Token::Eq => Token::Eq,
            Token::Lt => Token::Lt,
            Token::Gt => Token::Gt,
            Token::NEq => Token::NEq,
            Token::LtEq => Token::LtEq,
            Token::GtEq => Token::GtEq,
            Token::Not => Token::Not,
            Token::And => Token::And,
            Token::Or => Token::Or,
            Token::Assign => Token::Assign,
            Token::Walrus => Token::Walrus,
            Token::Let => Token::Let,
            Token::While => Token::While,
            Token::Func => Token::Func,
        }
    }
}

/// One entry of the token stream: a token with its span, or the tokenizer's
/// own error at that position.
pub type TokItem = Result<(Token, CacheSpan), PError>;

fn clone_item(it: &TokItem) -> (r: TokItem)
    ensures
        r == *it,
{
    match it {
        Ok((t, s)) => Ok((t.clone(), *s)),
        Err(e) => Err(e.clone()),
    }
}

/// The abstraction of a [`TokenStream`]: the entries, the cursor position,
/// and what is needed to build spans (the buffer id and the offset just past
/// the end of the source).
pub struct TokenStreamV {
    pub toks: Seq<TokItem>,
    pub pos: int,
    pub id: CacheId,
    pub end: usize,
}

/// A peekable cursor over the tokenizer's output. The parser only ever peeks
/// at or takes the next entry; it never looks back.
#[derive(Debug)]
pub struct TokenStream {
    toks: Vec<TokItem>,
    pos: usize,
    id: CacheId,
    end: usize,
}

impl View for TokenStream {
    type V = TokenStreamV;

    closed spec fn view(&self) -> TokenStreamV {
        TokenStreamV { toks: self.toks@, pos: self.pos as int, id: self.id, end: self.end }
    }
}

impl TokenStream {
    /// How many entries are still ahead of the cursor.
    pub open spec fn remaining(&self) -> int {
        self@.toks.len() - self@.pos
    }

    /// The stream's entries and span data never change; only the cursor
    /// moves, and it never moves back.
    pub open spec fn advanced_from(&self, old_ts: TokenStreamV) -> bool {
        &&& self@.toks == old_ts.toks
        &&& self@.id == old_ts.id
        &&& self@.end == old_ts.end
        &&& old_ts.pos <= self@.pos <= self@.toks.len()
    }

    pub open spec fn wf(&self) -> bool {
        0 <= self@.pos <= self@.toks.len()
    }

    pub fn new(id: CacheId, end: usize, toks: Vec<TokItem>) -> (r: TokenStream)
        ensures
            r.wf(),
            r@.toks == toks@,
            r@.pos == 0,
            r@.id == id,
            r@.end == end,
    {
        TokenStream { toks, pos: 0, id, end }
    }

    /// A span within this stream's source buffer.
    pub fn span(&self, range: core::ops::Range<usize>) -> (r: CacheSpan)
        ensures
            r == (CacheSpan { id: self@.id, start: range.start, end: range.end }),
    {
        CacheSpan { id: self.id, start: range.start, end: range.end }
    }

    /// The next entry, without moving the cursor.
    pub fn peek(&self) -> (r: Option<&TokItem>)
        requires
            self.wf(),
        ensures
            match r {
                Some(it) => self@.pos < self@.toks.len() && *it == self@.toks[self@.pos],
                None => self@.pos == self@.toks.len(),
            },
    {
        if self.pos < self.toks.len() {
            Some(&self.toks[self.pos])
        } else {
            None
        }
    }

    /// The next entry, moving the cursor past it.
    pub fn next(&mut self) -> (r: Option<TokItem>)
        requires
            old(self).wf(),
        ensures
            final(self).wf(),
            final(self).advanced_from(old(self)@),
            match r {
                Some(it) => {
                    &&& old(self)@.pos < old(self)@.toks.len()
                    &&& it == old(self)@.toks[old(self)@.pos]
                    &&& final(self)@.pos == old(self)@.pos + 1
                },
                None => old(self)@.pos == old(self)@.toks.len() && final(self)@.pos == old(
                    self,
                )@.pos,
            },
    {
        if self.pos < self.toks.len() {
            let it = clone_item(&self.toks[self.pos]);
            self.pos = self.pos + 1;
            Some(it)
        } else {
            None
        }
    }

    /// What [`Self::expect_next`] and [`Self::expect_peek`] give back, as a
    /// function of the stream: the entry under the cursor, or an
    /// unexpected-end error at the end of the source.
    pub open spec fn expect_spec(ts: TokenStreamV) -> Result<(Token, CacheSpan), PErrV> {
        if ts.pos < ts.toks.len() {
            match ts.toks[ts.pos] {
                Ok(p) => Ok(p),
                Err(e) => Err(e@),
            }
        } else {
            Err(PErrV::UnexpectedEnd { data: CacheSpan { id: ts.id, start: ts.end, end: ts.end } })
        }
    }

    /// The next entry, which must exist: at the end of input this fails with
    /// an unexpected-end error naming what was expected.
    pub fn expect_next(&mut self, expected: &str) -> (r: PResult<(Token, CacheSpan)>)
        requires
            old(self).wf(),
        ensures
            final(self).wf(),
            final(self).advanced_from(old(self)@),
            final(self)@.pos == if old(self)@.pos < old(self)@.toks.len() {
                old(self)@.pos + 1
            } else {
                old(self)@.pos
            },
            match (r, TokenStream::expect_spec(old(self)@)) {
                (Ok(p), Ok(q)) => p == q,
                (Err(e), Err(q)) => e@ == q,
                _ => false,
            },
            old(self)@.pos >= old(self)@.toks.len() ==> (r matches Err(e) && e matches
                PError::UnexpectedEnd { expected: ex, data } && ex@ == expected@),
    {
        match self.next() {
            Some(Ok(p)) => Ok(p),
            Some(Err(e)) => Err(e),
            None => Err(
                PError::UnexpectedEnd {
                    expected: expected.to_owned(),
                    data: CacheSpan { id: self.id, start: self.end, end: self.end },
                },
            ),
        }
    }

    /// The next entry without moving the cursor, which must exist.
    pub fn expect_peek(&self, expected: &str) -> (r: PResult<&(Token, CacheSpan)>)
        requires
            self.wf(),
        ensures
            match (r, TokenStream::expect_spec(self@)) {
                (Ok(p), Ok(q)) => *p == q,
                (Err(e), Err(q)) => e@ == q,
                _ => false,
            },
            self@.pos >= self@.toks.len() ==> (r matches Err(e) && e matches
                PError::UnexpectedEnd { expected: ex, data } && ex@ == expected@),
    {
        match self.peek() {
            Some(Ok(p)) => Ok(p),
            Some(Err(e)) => Err(e.clone()),
            None => Err(
                PError::UnexpectedEnd {
                    expected: expected.to_owned(),
                    data: CacheSpan { id: self.id, start: self.end, end: self.end },
                },
            ),
        }
    }
}

/// The display text of a token, as error messages quote it: literal and
/// identifier tokens show their own text, every other token its source
/// spelling in quotes.
pub open spec fn token_text_of(t: Token) -> Seq<char> {
    match t {
        Token::Bool(b) => if b {
            "'true'"@
        } else {
            "'false'"@
        },
        Token::Int(s) => s@,
        Token::UFloat(s) => s@,
        Token::String(s) => s@,
        Token::Ident(s) => s@,
        Token::Nil => "'none'"@,
        Token::OpenParen => "'('"@,
        Token::CloseParen => "')'"@,
        Token::OpenBrace => "'{'"@,
        Token::CloseBrace => "'}'"@,
        Token::Comma => "','"@,
        Token::Colon => "':'"@,
        Token::Question => "'?'"@,
        Token::Add => "'+'"@,
        Token::Sub => "'-'"@,
        Token::Mul => "'*'"@,
        Token::Div => "'/'"@,
        Token::Mod => "'%'"@,
        Token::Pow => "'**'"@,
        Token::Eq => "'=='"@,
        Token::Lt => "'<'"@,
        Token::Gt => "'>'"@,
        Token::NEq => "'!='"@,
        Token::LtEq => "'<='"@,
        Token::GtEq => "'>='"@,
        Token::Not => "'!'"@,
        Token::And => "'and'"@,
        Token::Or => "'or'"@,
        Token::Assign => "'='"@,
        Token::Walrus => "':='"@,
        Token::Let => "'let'"@,
        Token::While => "'while'"@,
        Token::Func => "'fn'"@,
    }
}

/// The display text of a token, exactly [`token_text_of`].
pub fn token_text(t: &Token) -> (r: String)
    ensures
        r@ == token_text_of(*t),
{
    match t {
        Token::Nil => String::from_str("'none'"),
        Token::Bool(b) => {
            if *b {
                String::from_str("'true'")
            } else {
                String::from_str("'false'")
            }
        },
        Token::Int(s) => s.clone(),
        Token::UFloat(s) => s.clone(),
        Token::String(s) => s.clone(),
        Token::Ident(s) => s.clone(),
        Token::OpenParen => String::from_str("'('"),
        Token::CloseParen => String::from_str("')'"),
        Token::OpenBrace => String::from_str("'{'"),
        Token::CloseBrace => String::from_str("'}'"),
        Token::Comma => String::from_str("','"),
        Token::Colon => String::from_str("':'"),
        Token::Question => String::from_str("'?'"),
        Token::Add => String::from_str("'+'"),
        Token::Sub => String::from_str("'-'"),
        Token::Mul => String::from_str("'*'"),
        Token::Div => String::from_str("'/'"),
        Token::Mod => String::from_str("'%'"),
        Token::Pow => String::from_str("'**'"),
        Token::Eq => String::from_str("'=='"),
        Token::Lt => String::from_str("'<'"),
        Token::Gt => String::from_str("'>'"),
        Token::NEq => String::from_str("'!='"),
        Token::LtEq => String::from_str("'<='"),
        Token::GtEq => String::from_str("'>='"),
        Token::Not => String::from_str("'!'"),
        Token::And => String::from_str("'and'"),
        Token::Or => String::from_str("'or'"),
        Token::Assign => String::from_str("'='"),
        Token::Walrus => String::from_str("':='"),
        Token::Let => String::from_str("'let'"),
        Token::While => String::from_str("'while'"),
        Token::Func => String::from_str("'fn'"),
    }
}

} // verus!
