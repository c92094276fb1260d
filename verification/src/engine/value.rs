use crate::num::{dec_clone, dec_finite, dec_text_of, dec_to_text, int_text, int_to_text, BigInt, Decimal};
use vstd::prelude::*;
use vstd::string::StringExecFns;

verus! {

/// A runtime value: the result of evaluating an expression. Values are
/// immutable trees of scalars with no identity or aliasing.
#[derive(Debug)]
pub enum Value {
    Nil,
    Bool(bool),
    Int(BigInt),
    Float(Decimal),
    String(String),
}

/// The abstraction of a runtime value: integers as mathematical values,
/// strings as character sequences, decimals as the opaque decimal object.
#[verifier::ext_equal]
pub enum Val {
    Nil,
    Bool(bool),
    Int(int),
    Float(Decimal),
    Str(Seq<char>),
}

impl View for Value {
    type V = Val;

    open spec fn view(&self) -> Val {
        match self {
            Value::Nil => Val::Nil,
            Value::Bool(b) => Val::Bool(*b),
            Value::Int(v) => Val::Int(v.value()),
            Value::Float(d) => Val::Float(*d),
            Value::String(s) => Val::Str(s@),
        }
    }
}

impl Value {
    /// An integer value's representation is canonical, and a decimal value is
    /// finite.
    pub open spec fn wf(&self) -> bool {
        match self {
            Value::Int(v) => v.wf(),
            Value::Float(d) => dec_finite(*d),
            _ => true,
        }
    }
}

/// The display text of a value: `none`, `true`/`false`, the canonical
/// decimal text of an integer, the decimal library's text for a float, or
/// the string itself.
pub open spec fn display_of(v: Val) -> Seq<char> {
    match v {
        Val::Nil => "none"@,
        Val::Bool(b) => if b {
            "true"@
        } else {
            "false"@
        },
        Val::Int(i) => int_text(i),
        Val::Float(d) => dec_text_of(d),
        Val::Str(s) => s,
    }
}

/// The type name a value reports in error messages.
pub open spec fn type_label_of(v: Val) -> Seq<char> {
    match v {
        Val::Nil => "none"@,
        Val::Bool(_) => "bool"@,
        Val::Int(_) => "int"@,
        Val::Float(_) => "float"@,
        Val::Str(_) => "string"@,
    }
}

impl Value {
    /// One of `none | bool | int | float | string`, used verbatim in error
    /// messages.
    pub fn type_label(&self) -> (r: String)
        ensures
            r@ == type_label_of(self@),
    {
        match self {
            Value::Nil => String::from_str("none"),
            Value::Bool(_) => String::from_str("bool"),
            Value::Int(_) => String::from_str("int"),
            Value::Float(_) => String::from_str("float"),
            Value::String(_) => String::from_str("string"),
        }
    }

    /// The display text of this value, exactly [`display_of`] of its
    /// abstraction.
    pub fn to_display(&self) -> (r: String)
        ensures
            r@ == display_of(self@),
    {
        match self {
            Value::Nil => String::from_str("none"),
            Value::Bool(b) => {
                if *b {
                    String::from_str("true")
                } else {
                    String::from_str("false")
                }
            },
            Value::Int(v) => int_to_text(v),
            Value::Float(d) => dec_to_text(d),
            Value::String(s) => s.clone(),
        }
    }
}

impl Clone for Value {
    fn clone(&self) -> (r: Self)
        ensures
            r@ == self@,
            self.wf() ==> r.wf(),
    {
        match self {
            Value::Nil => Value::Nil,
            Value::Bool(b) => Value::Bool(*b),
            Value::Int(v) => Value::Int(v.clone()),
            Value::Float(d) => Value::Float(dec_clone(d)),
            Value::String(s) => Value::String(s.clone()),
        }
    }
}

// ---------------------------------------------------------------------------
// String ordering and repetition, used by the evaluator's string operators.
// ---------------------------------------------------------------------------
/// Strict lexicographic order on character sequences.
pub open spec fn lex_lt(a: Seq<char>, b: Seq<char>) -> bool
    decreases a.len(),
{
    if b.len() == 0 {
        false
    } else if a.len() == 0 {
        true
    } else if a[0] != b[0] {
        (a[0] as u32) < (b[0] as u32)
    } else {
        lex_lt(a.subrange(1, a.len() as int), b.subrange(1, b.len() as int))
    }
}

/// Relies on str's Ord: lexicographic over the characters (UTF-8 byte order
/// agrees with character order).
#[verifier::external_body]
pub(crate) fn str_cmp(a: &str, b: &str) -> (r: core::cmp::Ordering)
    ensures
        (r == core::cmp::Ordering::Less) == lex_lt(a@, b@),
        (r == core::cmp::Ordering::Equal) == (a@ == b@),
        (r == core::cmp::Ordering::Greater) == lex_lt(b@, a@),
{
    a.cmp(b)
}

/// The given sequence repeated `n` times.
pub open spec fn seq_repeat(s: Seq<char>, n: nat) -> Seq<char>
    decreases n,
{
    if n == 0 {
        Seq::empty()
    } else {
        seq_repeat(s, (n - 1) as nat) + s
    }
}

/// The display texts of a sequence of values joined with single spaces.
pub open spec fn joined_texts(vals: Seq<Val>) -> Seq<char>
    decreases vals.len(),
{
    if vals.len() == 0 {
        Seq::empty()
    } else if vals.len() == 1 {
        display_of(vals[0])
    } else {
        joined_texts(vals.drop_last()) + " "@ + display_of(vals.last())
    }
}

/// The string repeated `count` times.
pub fn repeat_str(s: &str, count: usize) -> (r: String)
    ensures
        r@ == seq_repeat(s@, count as nat),
{
    let mut out = String::new();
    let mut i: usize = 0;
    proof {
        assert(out@ =~= seq_repeat(s@, 0));
    }
    while i < count
        invariant
            i <= count,
            out@ == seq_repeat(s@, i as nat),
        decreases count - i,
    {
        out.append(s);
        i = i + 1;
    }
    out
}

} // verus!
