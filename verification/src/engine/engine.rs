use crate::cache::CacheSpan;
use crate::engine::error::{RunErrV, RunError};
use crate::engine::scope::{
    functype_wf, rc_clone, FuncType, FuncTypeV, NativeDef, NativeKind, Scope, ScopeV,
};
use crate::engine::value::{
    display_of, joined_texts, lex_lt, repeat_str, seq_repeat, str_cmp, type_label_of, Val, Value,
};
use crate::num::{
    dec_add, dec_add_of, dec_cmp_of, dec_div, dec_div_int, dec_div_int_of, dec_div_of, dec_finite,
    dec_mul, dec_mul_of, dec_neg, dec_neg_of, dec_of_int, dec_pow_of, dec_powf, dec_rem_euclid,
    dec_rem_int, dec_rem_int_of, dec_rem_of, dec_sub, dec_sub_of, dec_text_of, int_add, int_cmp,
    int_div_dec, int_div_of, int_mul, int_rem_euclid, int_sub, int_to_decimal, int_to_text, BigInt,
};
use crate::parser::expr::{expr_wf, Expr, ExprV};
use crate::parser::node::{Node, NodeV};
use crate::parser::statement::{
    func_wf, lemma_stmt_nodes_view, lemma_stmts_wf, stmt_wf, stmts_wf, Func, Statement, StmtV,
};
use std::io::Write;
use vstd::prelude::*;
use vstd::string::StringExecFns;

verus! {

/// The unary operators the evaluator dispatches on.
#[derive(Debug, Clone, Copy, PartialEq, Eq, PartialOrd, Ord, Hash, Structural)]
pub enum UnaryOpType {
    Neg,
    Not,
}

/// The binary operators the evaluator dispatches on.
#[derive(Debug, Clone, Copy, PartialEq, Eq, PartialOrd, Ord, Hash, Structural)]
pub enum BinaryOpType {
    Add,
    Sub,
    Mul,
    Div,
    Mod,
    Pow,
    Eq,
    Lt,
    Gt,
    NEq,
    LtEq,
    GtEq,
    And,
    Or,
}

// ---------------------------------------------------------------------------
// The engine's state: one global frame and a stack of call frames. A name is
// resolved against the innermost call frame outward, then the global frame —
// never against the frames active where a function was defined.
// ---------------------------------------------------------------------------
/// The abstraction of an engine: the global frame and the call-frame stack,
/// innermost frame last.
#[verifier::ext_equal]
pub struct EngineV {
    pub global: ScopeV,
    pub frames: Seq<ScopeV>,
}

/// Owns the global frame and the call-frame stack, and walks the AST.
#[derive(Debug)]
pub struct Engine {
    global_scope: Scope,
    nested_scopes: Vec<Scope>,
}

impl View for Engine {
    type V = EngineV;

    closed spec fn view(&self) -> EngineV {
        EngineV {
            global: self.global_scope@,
            frames: self.nested_scopes@.map_values(|sc: Scope| sc@),
        }
    }
}

/// Lookup through a frame stack, innermost (last) frame first.
pub open spec fn frames_lookup_var(frames: Seq<ScopeV>, name: Seq<char>) -> Option<Val>
    decreases frames.len(),
{
    if frames.len() == 0 {
        None
    } else if frames.last().vars.contains_key(name) {
        Some(frames.last().vars[name])
    } else {
        frames_lookup_var(frames.drop_last(), name)
    }
}

pub open spec fn frames_lookup_func(frames: Seq<ScopeV>, name: Seq<char>) -> Option<FuncTypeV>
    decreases frames.len(),
{
    if frames.len() == 0 {
        None
    } else if frames.last().funcs.contains_key(name) {
        Some(frames.last().funcs[name])
    } else {
        frames_lookup_func(frames.drop_last(), name)
    }
}

/// What a variable name denotes: the innermost active frame that binds it,
/// else the global frame. This is the whole scoping rule — there is no
/// lexical capture.
pub open spec fn lookup_var(env: EngineV, name: Seq<char>) -> Option<Val> {
    match frames_lookup_var(env.frames, name) {
        Some(v) => Some(v),
        None => if env.global.vars.contains_key(name) {
            Some(env.global.vars[name])
        } else {
            None
        },
    }
}

pub open spec fn lookup_func(env: EngineV, name: Seq<char>) -> Option<FuncTypeV> {
    match frames_lookup_func(env.frames, name) {
        Some(f) => Some(f),
        None => if env.global.funcs.contains_key(name) {
            Some(env.global.funcs[name])
        } else {
            None
        },
    }
}

/// Binding writes into the innermost frame when one is active, else into the
/// global frame; this is the only binding rule.
pub open spec fn env_insert_var(pre: EngineV, name: Seq<char>, v: Val) -> EngineV {
    if pre.frames.len() == 0 {
        EngineV {
            global: ScopeV { vars: pre.global.vars.insert(name, v), funcs: pre.global.funcs },
            frames: pre.frames,
        }
    } else {
        EngineV {
            global: pre.global,
            frames: pre.frames.update(
                pre.frames.len() - 1,
                ScopeV {
                    vars: pre.frames.last().vars.insert(name, v),
                    funcs: pre.frames.last().funcs,
                },
            ),
        }
    }
}

pub open spec fn env_insert_func(pre: EngineV, name: Seq<char>, f: FuncTypeV) -> EngineV {
    if pre.frames.len() == 0 {
        EngineV {
            global: ScopeV { vars: pre.global.vars, funcs: pre.global.funcs.insert(name, f) },
            frames: pre.frames,
        }
    } else {
        EngineV {
            global: pre.global,
            frames: pre.frames.update(
                pre.frames.len() - 1,
                ScopeV {
                    vars: pre.frames.last().vars,
                    funcs: pre.frames.last().funcs.insert(name, f),
                },
            ),
        }
    }
}

/// What any expression or statement evaluation does to the frame structure:
/// the stack keeps its depth, frames below the innermost one are untouched,
/// and the global frame is untouched while any call frame is active.
pub open spec fn frames_shape_ok(pre: EngineV, post: EngineV) -> bool {
    &&& post.frames.len() == pre.frames.len()
    &&& pre.frames.len() > 0 ==> {
        &&& post.global == pre.global
        &&& post.frames.drop_last() == pre.frames.drop_last()
    }
}

/// Expressions additionally never register functions anywhere.
pub open spec fn expr_frames_ok(pre: EngineV, post: EngineV) -> bool {
    &&& frames_shape_ok(pre, post)
    &&& pre.frames.len() > 0 ==> post.frames.last().funcs == pre.frames.last().funcs
    &&& pre.frames.len() == 0 ==> post.frames == pre.frames && post.global.funcs
        == pre.global.funcs
}

impl Engine {
    /// Every frame, and every value and function a frame stores, is
    /// well-formed.
    pub closed spec fn wf(&self) -> bool {
        &&& self.global_scope.wf()
        &&& forall|i: int|
            0 <= i < self.nested_scopes@.len() ==> (#[trigger] self.nested_scopes@[i]).wf()
    }

    /// An engine whose global frame holds exactly the `print` built-in. The
    /// native functions this engine can run form the closed [`NativeKind`]
    /// set, each with a specified effect, rather than arbitrary host
    /// callbacks: the evaluator's contract states the exact result of every
    /// call, which a host-supplied callback could not honour.
    pub fn new() -> (r: Engine)
        ensures
            r.wf(),
            r@.frames.len() == 0,
            r@.global.vars === Map::empty(),
            r@.global.funcs === Map::empty().insert(
                "print"@,
                FuncTypeV::Native(
                    NativeV_of("print"@, usize::MAX, NativeKind::Print),
                ),
            ),
    {
        let mut global_scope = Scope::new();
        global_scope.init_func(
            FuncType::Native(
                NativeDef {
                    name: String::from_str("print"),
                    param_count: usize::MAX,
                    kind: NativeKind::Print,
                },
            ),
        );
        Engine { global_scope, nested_scopes: Vec::new() }
    }

    /// Registers a host-supplied native function under its name, in the
    /// innermost active frame or the global frame.
    pub fn register_native(&mut self, name: String, param_count: usize, kind: NativeKind)
        requires
            old(self).wf(),
        ensures
            final(self).wf(),
            final(self)@ == env_insert_func(
                old(self)@,
                name@,
                FuncTypeV::Native(NativeV_of(name@, param_count, kind)),
            ),
    {
        self.set_func(FuncType::Native(NativeDef { name, param_count, kind }));
    }

    /// The global frame.
    pub fn scope(&self) -> (r: &Scope)
        requires
            self.wf(),
        ensures
            r.wf(),
            r@ == self@.global,
    {
        &self.global_scope
    }

    /// Pushes one empty call frame.
    pub fn push_scope(&mut self)
        requires
            old(self).wf(),
        ensures
            final(self).wf(),
            final(self)@.global == old(self)@.global,
            final(self)@.frames == old(self)@.frames.push(
                ScopeV { vars: Map::empty(), funcs: Map::empty() },
            ),
    {
        self.nested_scopes.push(Scope::new());
        proof {
            assert(final(self)@.frames =~= old(self)@.frames.push(
                ScopeV { vars: Map::empty(), funcs: Map::empty() },
            ));
        }
    }

    /// Pops one call frame; popping an empty stack is a no-op reported by the
    /// false result.
    pub fn pop_scope(&mut self) -> (r: bool)
        requires
            old(self).wf(),
        ensures
            final(self).wf(),
            final(self)@.global == old(self)@.global,
            r == (old(self)@.frames.len() > 0),
            r ==> final(self)@.frames == old(self)@.frames.drop_last(),
            !r ==> final(self)@.frames == old(self)@.frames,
    {
        let popped = self.nested_scopes.pop();
        proof {
            if old(self)@.frames.len() > 0 {
                assert(final(self)@.frames =~= old(self)@.frames.drop_last());
            } else {
                assert(final(self)@.frames =~= old(self)@.frames);
            }
        }
        match popped {
            Some(_) => true,
            None => false,
        }
    }

    /// Binds the value in the innermost active frame, or the global frame
    /// when no call frame is active.
    pub fn set_var(&mut self, ident: String, value: Value)
        requires
            old(self).wf(),
            value.wf(),
        ensures
            final(self).wf(),
            final(self)@ == env_insert_var(old(self)@, ident@, value@),
    {
        match self.nested_scopes.pop() {
            None => {
                self.global_scope.init_var(ident, value);
                proof {
                    assert(final(self)@ =~= env_insert_var(old(self)@, ident@, value@));
                }
            },
            Some(mut sc) => {
                sc.init_var(ident, value);
                self.nested_scopes.push(sc);
                proof {
                    assert(final(self)@.frames =~= env_insert_var(
                        old(self)@,
                        ident@,
                        value@,
                    ).frames);
                    assert(final(self)@ =~= env_insert_var(old(self)@, ident@, value@));
                }
            },
        }
    }

    /// Registers the function in the innermost active frame, or the global
    /// frame when no call frame is active.
    pub fn set_func(&mut self, func: FuncType)
        requires
            old(self).wf(),
            functype_wf(&func),
        ensures
            final(self).wf(),
            final(self)@ == env_insert_func(old(self)@, func@.spec_name(), func@),
    {
        let ghost fview = func@;
        match self.nested_scopes.pop() {
            None => {
                self.global_scope.init_func(func);
                proof {
                    assert(final(self)@ =~= env_insert_func(old(self)@, fview.spec_name(), fview));
                }
            },
            Some(mut sc) => {
                sc.init_func(func);
                self.nested_scopes.push(sc);
                proof {
                    assert(final(self)@.frames =~= env_insert_func(
                        old(self)@,
                        fview.spec_name(),
                        fview,
                    ).frames);
                    assert(final(self)@ =~= env_insert_func(old(self)@, fview.spec_name(), fview));
                }
            },
        }
    }

    /// Resolves a variable against the active frames, innermost first, then
    /// the global frame; the first match wins.
    pub fn get_var(&self, ident: &String) -> (r: Option<&Value>)
        requires
            self.wf(),
        ensures
            match r {
                Some(v) => lookup_var(self@, ident@) == Some(v@) && v.wf(),
                None => lookup_var(self@, ident@) is None,
            },
    {
        let n = self.nested_scopes.len();
        let mut j: usize = n;
        proof {
            assert(self@.frames.subrange(0, n as int) =~= self@.frames);
        }
        while j > 0
            invariant
                self.wf(),
                j <= n,
                n == self.nested_scopes@.len(),
                frames_lookup_var(self@.frames.subrange(0, j as int), ident@) == frames_lookup_var(
                    self@.frames,
                    ident@,
                ),
            decreases j,
        {
            j = j - 1;
            let found = self.nested_scopes[j].get_var(ident);
            proof {
                let pref = self@.frames.subrange(0, j + 1);
                assert(pref.last() == self@.frames[j as int]);
                assert(pref.drop_last() =~= self@.frames.subrange(0, j as int));
            }
            if let Some(v) = found {
                return Some(v);
            }
        }
        proof {
            assert(self@.frames.subrange(0, 0) =~= Seq::<ScopeV>::empty());
        }
        self.global_scope.get_var(ident)
    }

    /// Resolves a function the same way, failing with an unknown-function
    /// error carrying the identifier's span.
    pub fn get_func(&self, ident: &Node<String>) -> (r: Result<&FuncType, RunError>)
        requires
            self.wf(),
        ensures
            match r {
                Ok(f) => lookup_func(self@, ident.item@) == Some(f@) && functype_wf(f),
                Err(e) => lookup_func(self@, ident.item@) is None && e@ == (
                RunErrV::UnknownFunction { ident: ident.item@, data: ident.span }),
            },
    {
        let n = self.nested_scopes.len();
        let mut j: usize = n;
        proof {
            assert(self@.frames.subrange(0, n as int) =~= self@.frames);
        }
        while j > 0
            invariant
                self.wf(),
                j <= n,
                n == self.nested_scopes@.len(),
                frames_lookup_func(self@.frames.subrange(0, j as int), ident.item@)
                    == frames_lookup_func(self@.frames, ident.item@),
            decreases j,
        {
            j = j - 1;
            let found = self.nested_scopes[j].get_func(&ident.item);
            proof {
                let pref = self@.frames.subrange(0, j + 1);
                assert(pref.last() == self@.frames[j as int]);
                assert(pref.drop_last() =~= self@.frames.subrange(0, j as int));
            }
            if let Some(f) = found {
                return Ok(f);
            }
        }
        proof {
            assert(self@.frames.subrange(0, 0) =~= Seq::<ScopeV>::empty());
        }
        match self.global_scope.get_func(&ident.item) {
            Some(f) => Ok(f),
            None => Err(
                RunError::UnknownFunction { ident: ident.item.clone(), data: ident.span },
            ),
        }
    }
}

/// The abstraction of a just-built native definition.
pub open spec fn NativeV_of(
    name: Seq<char>,
    param_count: usize,
    kind: NativeKind,
) -> crate::engine::scope::NativeV {
    crate::engine::scope::NativeV { name, param_count, kind }
}

// ---------------------------------------------------------------------------
// The operator coercion tables. `binary_table` is the authoritative account
// of which operand-type pairs each operator accepts and what comes back:
// an exact value where the rules fix it, a decimal or a comparison of
// decimals where the decimal library rounds, and the error kind otherwise.
// ---------------------------------------------------------------------------
pub open spec fn bool01(b: bool) -> int {
    if b {
        1
    } else {
        0
    }
}

/// A string-repetition count: negative counts give the empty string, counts
/// beyond the platform's range saturate.
pub open spec fn sat_count(x: int) -> nat {
    if x < 0 {
        0
    } else if x > usize::MAX {
        usize::MAX as nat
    } else {
        x as nat
    }
}

/// The authoritative coercion table: for every operator and operand pair,
/// exactly what comes back — the result value (decimal results named through
/// the trusted layer's result functions), or the error kind with its span.
pub open spec fn binary_table(op: BinaryOpType, a: Val, b: Val, data: CacheSpan) -> Result<
    Val,
    RunErrV,
> {
    match (a, op, b) {
        // integer on the left: bools coerce to 0/1, floats promote
        (Val::Int(x), BinaryOpType::Add, Val::Bool(c)) => Ok(Val::Int(x + bool01(c))),
        (Val::Int(x), BinaryOpType::Add, Val::Int(y)) => Ok(Val::Int(x + y)),
        (Val::Int(x), BinaryOpType::Add, Val::Float(d)) => match dec_add_of(dec_of_int(x), d) {
            None => Err(RunErrV::Overflow { data }),
            Some(q) => Ok(Val::Float(q)),
        },
        (Val::Int(x), BinaryOpType::Sub, Val::Bool(c)) => Ok(Val::Int(x - bool01(c))),
        (Val::Int(x), BinaryOpType::Sub, Val::Int(y)) => Ok(Val::Int(x - y)),
        (Val::Int(x), BinaryOpType::Sub, Val::Float(d)) => match dec_sub_of(dec_of_int(x), d) {
            None => Err(RunErrV::Overflow { data }),
            Some(q) => Ok(Val::Float(q)),
        },
        (Val::Int(x), BinaryOpType::Mul, Val::Bool(c)) => Ok(Val::Int(x * bool01(c))),
        (Val::Int(x), BinaryOpType::Mul, Val::Int(y)) => Ok(Val::Int(x * y)),
        (Val::Int(x), BinaryOpType::Mul, Val::Float(d)) => match dec_mul_of(dec_of_int(x), d) {
            None => Err(RunErrV::Overflow { data }),
            Some(q) => Ok(Val::Float(q)),
        },
        (Val::Int(x), BinaryOpType::Div, Val::Int(y)) => if y == 0 {
            Err(RunErrV::DivisionByZero { data })
        } else {
            Ok(Val::Float(int_div_of(x, y)))
        },
        (Val::Int(x), BinaryOpType::Div, Val::Float(d)) => match dec_div_of(dec_of_int(x), d) {
            None => Err(RunErrV::DivisionByZero { data }),
            Some(q) => Ok(Val::Float(q)),
        },
        (Val::Int(x), BinaryOpType::Mod, Val::Int(y)) => if y == 0 {
            Err(RunErrV::DivisionByZero { data })
        } else {
            Ok(Val::Int(x % y))
        },
        (Val::Int(x), BinaryOpType::Mod, Val::Float(d)) => match dec_rem_of(dec_of_int(x), d) {
            None => Err(RunErrV::DivisionByZero { data }),
            Some(q) => Ok(Val::Float(q)),
        },
        (Val::Int(x), BinaryOpType::Pow, Val::Int(y)) => match dec_pow_of(
            dec_of_int(x),
            dec_of_int(y),
        ) {
            None => Err(RunErrV::InvalidPower { data }),
            Some(q) => Ok(Val::Float(q)),
        },
        (Val::Int(x), BinaryOpType::Pow, Val::Float(d)) => match dec_pow_of(dec_of_int(x), d) {
            None => Err(RunErrV::InvalidPower { data }),
            Some(q) => Ok(Val::Float(q)),
        },
        (Val::Int(x), BinaryOpType::Eq, Val::Int(y)) => Ok(Val::Bool(x == y)),
        (Val::Int(x), BinaryOpType::Eq, Val::Float(d)) => Ok(
            Val::Bool(dec_cmp_of(dec_of_int(x), d) == core::cmp::Ordering::Equal),
        ),
        (Val::Int(x), BinaryOpType::Lt, Val::Int(y)) => Ok(Val::Bool(x < y)),
        (Val::Int(x), BinaryOpType::Lt, Val::Float(d)) => Ok(
            Val::Bool(dec_cmp_of(dec_of_int(x), d) == core::cmp::Ordering::Less),
        ),
        (Val::Int(x), BinaryOpType::Gt, Val::Int(y)) => Ok(Val::Bool(x > y)),
        (Val::Int(x), BinaryOpType::Gt, Val::Float(d)) => Ok(
            Val::Bool(dec_cmp_of(dec_of_int(x), d) == core::cmp::Ordering::Greater),
        ),
        (Val::Int(x), BinaryOpType::NEq, Val::Int(y)) => Ok(Val::Bool(x != y)),
        (Val::Int(x), BinaryOpType::NEq, Val::Float(d)) => Ok(
            Val::Bool(dec_cmp_of(dec_of_int(x), d) != core::cmp::Ordering::Equal),
        ),
        (Val::Int(x), BinaryOpType::LtEq, Val::Int(y)) => Ok(Val::Bool(x <= y)),
        (Val::Int(x), BinaryOpType::LtEq, Val::Float(d)) => Ok(
            Val::Bool(dec_cmp_of(dec_of_int(x), d) != core::cmp::Ordering::Greater),
        ),
        (Val::Int(x), BinaryOpType::GtEq, Val::Int(y)) => Ok(Val::Bool(x >= y)),
        (Val::Int(x), BinaryOpType::GtEq, Val::Float(d)) => Ok(
            Val::Bool(dec_cmp_of(dec_of_int(x), d) != core::cmp::Ordering::Less),
        ),
        // float on the left
        (Val::Float(d), BinaryOpType::Add, Val::Bool(c)) => match dec_add_of(d, dec_of_int(bool01(c))) {
            None => Err(RunErrV::Overflow { data }),
            Some(q) => Ok(Val::Float(q)),
        },
        (Val::Float(d), BinaryOpType::Add, Val::Int(y)) => match dec_add_of(d, dec_of_int(y)) {
            None => Err(RunErrV::Overflow { data }),
            Some(q) => Ok(Val::Float(q)),
        },
        (Val::Float(d), BinaryOpType::Add, Val::Float(e)) => match dec_add_of(d, e) {
            None => Err(RunErrV::Overflow { data }),
            Some(q) => Ok(Val::Float(q)),
        },
        (Val::Float(d), BinaryOpType::Sub, Val::Bool(c)) => match dec_sub_of(d, dec_of_int(bool01(c))) {
            None => Err(RunErrV::Overflow { data }),
            Some(q) => Ok(Val::Float(q)),
        },
        (Val::Float(d), BinaryOpType::Sub, Val::Int(y)) => match dec_sub_of(d, dec_of_int(y)) {
            None => Err(RunErrV::Overflow { data }),
            Some(q) => Ok(Val::Float(q)),
        },
        (Val::Float(d), BinaryOpType::Sub, Val::Float(e)) => match dec_sub_of(d, e) {
            None => Err(RunErrV::Overflow { data }),
            Some(q) => Ok(Val::Float(q)),
        },
        (Val::Float(d), BinaryOpType::Mul, Val::Bool(c)) => match dec_mul_of(d, dec_of_int(bool01(c))) {
            None => Err(RunErrV::Overflow { data }),
            Some(q) => Ok(Val::Float(q)),
        },
        (Val::Float(d), BinaryOpType::Mul, Val::Int(y)) => match dec_mul_of(d, dec_of_int(y)) {
            None => Err(RunErrV::Overflow { data }),
            Some(q) => Ok(Val::Float(q)),
        },
        (Val::Float(d), BinaryOpType::Mul, Val::Float(e)) => match dec_mul_of(d, e) {
            None => Err(RunErrV::Overflow { data }),
            Some(q) => Ok(Val::Float(q)),
        },
        (Val::Float(d), BinaryOpType::Div, Val::Int(y)) => if y == 0 {
            Err(RunErrV::DivisionByZero { data })
        } else {
            match dec_div_int_of(d, y) {
                None => Err(RunErrV::Overflow { data }),
                Some(q) => Ok(Val::Float(q)),
            }
        },
        (Val::Float(d), BinaryOpType::Div, Val::Float(e)) => match dec_div_of(d, e) {
            None => Err(RunErrV::DivisionByZero { data }),
            Some(q) => Ok(Val::Float(q)),
        },
        (Val::Float(d), BinaryOpType::Mod, Val::Int(y)) => if y == 0 {
            Err(RunErrV::DivisionByZero { data })
        } else {
            Ok(Val::Float(dec_rem_int_of(d, y)))
        },
        (Val::Float(d), BinaryOpType::Mod, Val::Float(e)) => match dec_rem_of(d, e) {
            None => Err(RunErrV::DivisionByZero { data }),
            Some(q) => Ok(Val::Float(q)),
        },
        (Val::Float(d), BinaryOpType::Pow, Val::Int(y)) => match dec_pow_of(d, dec_of_int(y)) {
            None => Err(RunErrV::InvalidPower { data }),
            Some(q) => Ok(Val::Float(q)),
        },
        (Val::Float(d), BinaryOpType::Pow, Val::Float(e)) => match dec_pow_of(d, e) {
            None => Err(RunErrV::InvalidPower { data }),
            Some(q) => Ok(Val::Float(q)),
        },
        (Val::Float(d), BinaryOpType::Eq, Val::Int(y)) => Ok(
            Val::Bool(dec_cmp_of(d, dec_of_int(y)) == core::cmp::Ordering::Equal),
        ),
        (Val::Float(d), BinaryOpType::Eq, Val::Float(e)) => Ok(
            Val::Bool(dec_cmp_of(d, e) == core::cmp::Ordering::Equal),
        ),
        (Val::Float(d), BinaryOpType::Lt, Val::Int(y)) => Ok(
            Val::Bool(dec_cmp_of(d, dec_of_int(y)) == core::cmp::Ordering::Less),
        ),
        (Val::Float(d), BinaryOpType::Lt, Val::Float(e)) => Ok(
            Val::Bool(dec_cmp_of(d, e) == core::cmp::Ordering::Less),
        ),
        (Val::Float(d), BinaryOpType::Gt, Val::Int(y)) => Ok(
            Val::Bool(dec_cmp_of(d, dec_of_int(y)) == core::cmp::Ordering::Greater),
        ),
        (Val::Float(d), BinaryOpType::Gt, Val::Float(e)) => Ok(
            Val::Bool(dec_cmp_of(d, e) == core::cmp::Ordering::Greater),
        ),
        (Val::Float(d), BinaryOpType::NEq, Val::Int(y)) => Ok(
            Val::Bool(dec_cmp_of(d, dec_of_int(y)) != core::cmp::Ordering::Equal),
        ),
        (Val::Float(d), BinaryOpType::NEq, Val::Float(e)) => Ok(
            Val::Bool(dec_cmp_of(d, e) != core::cmp::Ordering::Equal),
        ),
        (Val::Float(d), BinaryOpType::LtEq, Val::Int(y)) => Ok(
            Val::Bool(dec_cmp_of(d, dec_of_int(y)) != core::cmp::Ordering::Greater),
        ),
        (Val::Float(d), BinaryOpType::LtEq, Val::Float(e)) => Ok(
            Val::Bool(dec_cmp_of(d, e) != core::cmp::Ordering::Greater),
        ),
        (Val::Float(d), BinaryOpType::GtEq, Val::Int(y)) => Ok(
            Val::Bool(dec_cmp_of(d, dec_of_int(y)) != core::cmp::Ordering::Less),
        ),
        (Val::Float(d), BinaryOpType::GtEq, Val::Float(e)) => Ok(
            Val::Bool(dec_cmp_of(d, e) != core::cmp::Ordering::Less),
        ),
        // string on the left: concatenation of a display form, repetition,
        // and lexicographic comparison with another string
        (Val::Str(sl), BinaryOpType::Add, Val::Bool(c)) => Ok(
            Val::Str(
                sl + if c {
                    "true"@
                } else {
                    "false"@
                },
            ),
        ),
        (Val::Str(sl), BinaryOpType::Add, Val::Int(x)) => Ok(
            Val::Str(sl + crate::num::int_text(x)),
        ),
        (Val::Str(sl), BinaryOpType::Add, Val::Float(d)) => Ok(Val::Str(sl + dec_text_of(d))),
        (Val::Str(sl), BinaryOpType::Add, Val::Str(t)) => Ok(Val::Str(sl + t)),
        (Val::Str(sl), BinaryOpType::Mul, Val::Bool(c)) => Ok(
            Val::Str(seq_repeat(sl, bool01(c) as nat)),
        ),
        (Val::Str(sl), BinaryOpType::Mul, Val::Int(x)) => Ok(
            Val::Str(seq_repeat(sl, sat_count(x))),
        ),
        (Val::Str(sl), BinaryOpType::Eq, Val::Str(t)) => Ok(Val::Bool(sl == t)),
        (Val::Str(sl), BinaryOpType::Lt, Val::Str(t)) => Ok(Val::Bool(lex_lt(sl, t))),
        (Val::Str(sl), BinaryOpType::Gt, Val::Str(t)) => Ok(Val::Bool(lex_lt(t, sl))),
        (Val::Str(sl), BinaryOpType::NEq, Val::Str(t)) => Ok(Val::Bool(sl != t)),
        (Val::Str(sl), BinaryOpType::LtEq, Val::Str(t)) => Ok(Val::Bool(lex_lt(sl, t) || sl == t)),
        (Val::Str(sl), BinaryOpType::GtEq, Val::Str(t)) => Ok(Val::Bool(lex_lt(t, sl) || sl == t)),
        // booleans: comparison and the eager logical operators
        (Val::Bool(x), BinaryOpType::Eq, Val::Bool(y)) => Ok(Val::Bool(x == y)),
        (Val::Bool(x), BinaryOpType::Lt, Val::Bool(y)) => Ok(Val::Bool(!x && y)),
        (Val::Bool(x), BinaryOpType::Gt, Val::Bool(y)) => Ok(Val::Bool(x && !y)),
        (Val::Bool(x), BinaryOpType::NEq, Val::Bool(y)) => Ok(Val::Bool(x != y)),
        (Val::Bool(x), BinaryOpType::LtEq, Val::Bool(y)) => Ok(Val::Bool(!x || y)),
        (Val::Bool(x), BinaryOpType::GtEq, Val::Bool(y)) => Ok(Val::Bool(x || !y)),
        (Val::Bool(x), BinaryOpType::And, Val::Bool(y)) => Ok(Val::Bool(x && y)),
        (Val::Bool(x), BinaryOpType::Or, Val::Bool(y)) => Ok(Val::Bool(x || y)),
        // no other pair is defined
        _ => Err(
            RunErrV::InvalidBinary {
                op,
                vtype1: type_label_of(a),
                vtype2: type_label_of(b),
                data,
            },
        ),
    }
}

/// The unary operator table: `!` on booleans, exact negation on integers,
/// decimal negation on floats, an error elsewhere.
pub open spec fn unary_table(op: UnaryOpType, v: Val, data: CacheSpan) -> Result<Val, RunErrV> {
    match (v, op) {
        (Val::Bool(b), UnaryOpType::Not) => Ok(Val::Bool(!b)),
        (Val::Int(x), UnaryOpType::Neg) => Ok(Val::Int(-x)),
        (Val::Float(d), UnaryOpType::Neg) => Ok(Val::Float(dec_neg_of(d))),
        _ => Err(RunErrV::InvalidUnary { op, vtype: type_label_of(v), data }),
    }
}

pub open spec fn res_view(r: Result<Value, RunError>) -> Result<Val, RunErrV> {
    match r {
        Ok(v) => Ok(v@),
        Err(e) => Err(e@),
    }
}

// ---------------------------------------------------------------------------
// Laws the coercion table fixes for every input.
// ---------------------------------------------------------------------------
/// Power always promotes: a successful `**` application yields a decimal,
/// never an integer, whatever the numeric operands were.
pub proof fn lemma_pow_promotes(a: Val, b: Val, data: CacheSpan)
    ensures
        binary_table(BinaryOpType::Pow, a, b, data) matches Ok(v) ==> v matches Val::Float(_),
{
}

/// Division is always true division: a successful `/` application yields a
/// decimal, never an integer, even for exactly dividing integer operands.
pub proof fn lemma_div_promotes(a: Val, b: Val, data: CacheSpan)
    ensures
        binary_table(BinaryOpType::Div, a, b, data) matches Ok(v) ==> v matches Val::Float(_),
{
}

/// The remainder operator is Euclidean on integer operands: for every
/// dividend and every non-zero divisor the table yields exactly the
/// remainder in `[0, |divisor|)` whose difference from the dividend the
/// divisor divides. (The decimal rows carry dashu's named remainders, whose
/// values lie outside the integer model.)
pub proof fn lemma_mod_is_euclidean(x: int, y: int, data: CacheSpan)
    requires
        y != 0,
    ensures
        binary_table(BinaryOpType::Mod, Val::Int(x), Val::Int(y), data) == Ok::<Val, RunErrV>(
            Val::Int(x % y),
        ),
        0 <= x % y,
        x % y < if y < 0 {
            -y
        } else {
            y
        },
        (x - x % y) % y == 0,
{
    crate::num::lemma_euclid_mod_range(x, y);
    assert((x - x % y) % y == 0) by (nonlinear_arith)
        requires
            y != 0,
    ;
}

/// Repeating a string by any negative count yields the empty string.
pub proof fn lemma_negative_repeat_is_empty(s: Seq<char>, x: int, data: CacheSpan)
    requires
        x < 0,
    ensures
        binary_table(BinaryOpType::Mul, Val::Str(s), Val::Int(x), data) == Ok::<Val, RunErrV>(
            Val::Str(Seq::empty()),
        ),
{
    assert(sat_count(x) == 0);
    assert(seq_repeat(s, 0) =~= Seq::<char>::empty());
}
fn int_is_eq(a: &BigInt, b: &BigInt) -> (r: bool)
    ensures
        r == (a.value() == b.value()),
{
    matches!(int_cmp(a, b), core::cmp::Ordering::Equal)
}

fn int_is_lt(a: &BigInt, b: &BigInt) -> (r: bool)
    ensures
        r == (a.value() < b.value()),
{
    matches!(int_cmp(a, b), core::cmp::Ordering::Less)
}

fn int_is_le(a: &BigInt, b: &BigInt) -> (r: bool)
    ensures
        r == (a.value() <= b.value()),
{
    !matches!(int_cmp(a, b), core::cmp::Ordering::Greater)
}

impl Engine {
    /// Applies a unary operator per [`unary_table`].
    fn eval_unary(&self, op: UnaryOpType, val: Value, data: &CacheSpan) -> (r: Result<
        Value,
        RunError,
    >)
        requires
            val.wf(),
        ensures
            res_view(r) == unary_table(op, val@, *data),
            r matches Ok(v) ==> v.wf(),
    {
        let vtype = val.type_label();
        match (val, op) {
            (Value::Bool(b), UnaryOpType::Not) => Ok(Value::Bool(!b)),
            (Value::Int(x), UnaryOpType::Neg) => Ok(Value::Int(x.neg())),
            (Value::Float(d), UnaryOpType::Neg) => Ok(Value::Float(dec_neg(&d))),
            (_, _) => Err(RunError::InvalidUnary { op, vtype, data: *data }),
        }
    }

    /// Applies a binary operator per [`binary_table`], the coercion rules of
    /// the language.
    fn eval_binary(
        &self,
        val1: Value,
        op: BinaryOpType,
        val2: Value,
        data: &CacheSpan,
    ) -> (r: Result<Value, RunError>)
        requires
            val1.wf(),
            val2.wf(),
        ensures
            res_view(r) == binary_table(op, val1@, val2@, *data),
            r matches Ok(v) ==> v.wf(),
    {
        match val1 {
            Value::Int(x) => eval_binary_int(x, op, val2, data),
            Value::Float(d) => eval_binary_float(d, op, val2, data),
            Value::String(s) => eval_binary_string(s, op, val2, data),
            Value::Bool(b) => eval_binary_bool(b, op, val2, data),
            Value::Nil => {
                let vtype2 = val2.type_label();
                Err(
                    RunError::InvalidBinary {
                        op,
                        vtype1: String::from_str("none"),
                        vtype2,
                        data: *data,
                    },
                )
            },
        }
    }
}

/// The integer-on-the-left rows of [`binary_table`].
#[verifier::rlimit(60)]
#[verifier::spinoff_prover]
fn eval_binary_int(x: BigInt, op: BinaryOpType, val2: Value, data: &CacheSpan) -> (r: Result<
    Value,
    RunError,
>)
    requires
        x.wf(),
        val2.wf(),
    ensures
        res_view(r) == binary_table(op, Val::Int(x.value()), val2@, *data),
        r matches Ok(v) ==> v.wf(),
{
    let vtype2 = val2.type_label();
    match (op, val2) {
        (BinaryOpType::Add, Value::Bool(c)) => Ok(Value::Int(int_add(&x, &BigInt::from_bool(c)))),
        (BinaryOpType::Add, Value::Int(y)) => Ok(Value::Int(int_add(&x, &y))),
        (BinaryOpType::Add, Value::Float(d)) => {
            match dec_add(&int_to_decimal(&x), &d) {
                None => Err(RunError::Overflow { data: *data }),
                Some(q) => Ok(Value::Float(q)),
            }
        },
        (BinaryOpType::Sub, Value::Bool(c)) => Ok(Value::Int(int_sub(&x, &BigInt::from_bool(c)))),
        (BinaryOpType::Sub, Value::Int(y)) => Ok(Value::Int(int_sub(&x, &y))),
        (BinaryOpType::Sub, Value::Float(d)) => {
            match dec_sub(&int_to_decimal(&x), &d) {
                None => Err(RunError::Overflow { data: *data }),
                Some(q) => Ok(Value::Float(q)),
            }
        },
        (BinaryOpType::Mul, Value::Bool(c)) => Ok(Value::Int(int_mul(&x, &BigInt::from_bool(c)))),
        (BinaryOpType::Mul, Value::Int(y)) => Ok(Value::Int(int_mul(&x, &y))),
        (BinaryOpType::Mul, Value::Float(d)) => {
            match dec_mul(&int_to_decimal(&x), &d) {
                None => Err(RunError::Overflow { data: *data }),
                Some(q) => Ok(Value::Float(q)),
            }
        },
        (BinaryOpType::Div, Value::Int(y)) => {
            if y.is_zero() {
                Err(RunError::DivisionByZero { data: *data })
            } else {
                Ok(Value::Float(int_div_dec(&x, &y)))
            }
        },
        (BinaryOpType::Div, Value::Float(d)) => {
            match dec_div(&int_to_decimal(&x), &d) {
                None => Err(RunError::DivisionByZero { data: *data }),
                Some(q) => Ok(Value::Float(q)),
            }
        },
        (BinaryOpType::Mod, Value::Int(y)) => {
            if y.is_zero() {
                Err(RunError::DivisionByZero { data: *data })
            } else {
                Ok(Value::Int(int_rem_euclid(&x, &y)))
            }
        },
        (BinaryOpType::Mod, Value::Float(d)) => {
            match dec_rem_euclid(&int_to_decimal(&x), &d) {
                None => Err(RunError::DivisionByZero { data: *data }),
                Some(q) => Ok(Value::Float(q)),
            }
        },
        (BinaryOpType::Pow, Value::Int(y)) => {
            match dec_powf(&int_to_decimal(&x), &int_to_decimal(&y)) {
                None => Err(RunError::InvalidPower { data: *data }),
                Some(q) => Ok(Value::Float(q)),
            }
        },
        (BinaryOpType::Pow, Value::Float(d)) => {
            match dec_powf(&int_to_decimal(&x), &d) {
                None => Err(RunError::InvalidPower { data: *data }),
                Some(q) => Ok(Value::Float(q)),
            }
        },
        (BinaryOpType::Eq, Value::Int(y)) => Ok(Value::Bool(int_is_eq(&x, &y))),
        (BinaryOpType::Eq, Value::Float(d)) => Ok(
            Value::Bool(
                matches!(crate::num::dec_cmp(&int_to_decimal(&x), &d), core::cmp::Ordering::Equal),
            ),
        ),
        (BinaryOpType::Lt, Value::Int(y)) => Ok(Value::Bool(int_is_lt(&x, &y))),
        (BinaryOpType::Lt, Value::Float(d)) => Ok(
            Value::Bool(
                matches!(crate::num::dec_cmp(&int_to_decimal(&x), &d), core::cmp::Ordering::Less),
            ),
        ),
        (BinaryOpType::Gt, Value::Int(y)) => Ok(Value::Bool(int_is_lt(&y, &x))),
        (BinaryOpType::Gt, Value::Float(d)) => Ok(
            Value::Bool(
                matches!(
                    crate::num::dec_cmp(&int_to_decimal(&x), &d),
                    core::cmp::Ordering::Greater
                ),
            ),
        ),
        (BinaryOpType::NEq, Value::Int(y)) => Ok(Value::Bool(!int_is_eq(&x, &y))),
        (BinaryOpType::NEq, Value::Float(d)) => Ok(
            Value::Bool(
                !matches!(crate::num::dec_cmp(&int_to_decimal(&x), &d), core::cmp::Ordering::Equal),
            ),
        ),
        (BinaryOpType::LtEq, Value::Int(y)) => Ok(Value::Bool(int_is_le(&x, &y))),
        (BinaryOpType::LtEq, Value::Float(d)) => Ok(
            Value::Bool(
                !matches!(
                    crate::num::dec_cmp(&int_to_decimal(&x), &d),
                    core::cmp::Ordering::Greater
                ),
            ),
        ),
        (BinaryOpType::GtEq, Value::Int(y)) => Ok(Value::Bool(int_is_le(&y, &x))),
        (BinaryOpType::GtEq, Value::Float(d)) => Ok(
            Value::Bool(
                !matches!(crate::num::dec_cmp(&int_to_decimal(&x), &d), core::cmp::Ordering::Less),
            ),
        ),
        (o, v2) => Err(
            RunError::InvalidBinary { op: o, vtype1: String::from_str("int"), vtype2, data: *data },
        ),
    }
}

/// The float-on-the-left rows of [`binary_table`].
#[verifier::rlimit(60)]
#[verifier::spinoff_prover]
fn eval_binary_float(d: crate::num::Decimal, op: BinaryOpType, val2: Value, data: &CacheSpan) -> (r:
    Result<Value, RunError>)
    requires
        dec_finite(d),
        val2.wf(),
    ensures
        res_view(r) == binary_table(op, Val::Float(d), val2@, *data),
        r matches Ok(v) ==> v.wf(),
{
    let vtype2 = val2.type_label();
    match (op, val2) {
        (BinaryOpType::Add, Value::Bool(c)) => {
            match dec_add(&d, &int_to_decimal(&BigInt::from_bool(c))) {
                None => Err(RunError::Overflow { data: *data }),
                Some(q) => Ok(Value::Float(q)),
            }
        },
        (BinaryOpType::Add, Value::Int(y)) => {
            match dec_add(&d, &int_to_decimal(&y)) {
                None => Err(RunError::Overflow { data: *data }),
                Some(q) => Ok(Value::Float(q)),
            }
        },
        (BinaryOpType::Add, Value::Float(e)) => {
            match dec_add(&d, &e) {
                None => Err(RunError::Overflow { data: *data }),
                Some(q) => Ok(Value::Float(q)),
            }
        },
        (BinaryOpType::Sub, Value::Bool(c)) => {
            match dec_sub(&d, &int_to_decimal(&BigInt::from_bool(c))) {
                None => Err(RunError::Overflow { data: *data }),
                Some(q) => Ok(Value::Float(q)),
            }
        },
        (BinaryOpType::Sub, Value::Int(y)) => {
            match dec_sub(&d, &int_to_decimal(&y)) {
                None => Err(RunError::Overflow { data: *data }),
                Some(q) => Ok(Value::Float(q)),
            }
        },
        (BinaryOpType::Sub, Value::Float(e)) => {
            match dec_sub(&d, &e) {
                None => Err(RunError::Overflow { data: *data }),
                Some(q) => Ok(Value::Float(q)),
            }
        },
        (BinaryOpType::Mul, Value::Bool(c)) => {
            match dec_mul(&d, &int_to_decimal(&BigInt::from_bool(c))) {
                None => Err(RunError::Overflow { data: *data }),
                Some(q) => Ok(Value::Float(q)),
            }
        },
        (BinaryOpType::Mul, Value::Int(y)) => {
            match dec_mul(&d, &int_to_decimal(&y)) {
                None => Err(RunError::Overflow { data: *data }),
                Some(q) => Ok(Value::Float(q)),
            }
        },
        (BinaryOpType::Mul, Value::Float(e)) => {
            match dec_mul(&d, &e) {
                None => Err(RunError::Overflow { data: *data }),
                Some(q) => Ok(Value::Float(q)),
            }
        },
        (BinaryOpType::Div, Value::Int(y)) => {
            if y.is_zero() {
                Err(RunError::DivisionByZero { data: *data })
            } else {
                match dec_div_int(&d, &y) {
                    None => Err(RunError::Overflow { data: *data }),
                    Some(q) => Ok(Value::Float(q)),
                }
            }
        },
        (BinaryOpType::Div, Value::Float(e)) => {
            match dec_div(&d, &e) {
                None => Err(RunError::DivisionByZero { data: *data }),
                Some(q) => Ok(Value::Float(q)),
            }
        },
        (BinaryOpType::Mod, Value::Int(y)) => {
            if y.is_zero() {
                Err(RunError::DivisionByZero { data: *data })
            } else {
                Ok(Value::Float(dec_rem_int(&d, &y)))
            }
        },
        (BinaryOpType::Mod, Value::Float(e)) => {
            match dec_rem_euclid(&d, &e) {
                None => Err(RunError::DivisionByZero { data: *data }),
                Some(q) => Ok(Value::Float(q)),
            }
        },
        (BinaryOpType::Pow, Value::Int(y)) => {
            match dec_powf(&d, &int_to_decimal(&y)) {
                None => Err(RunError::InvalidPower { data: *data }),
                Some(q) => Ok(Value::Float(q)),
            }
        },
        (BinaryOpType::Pow, Value::Float(e)) => {
            match dec_powf(&d, &e) {
                None => Err(RunError::InvalidPower { data: *data }),
                Some(q) => Ok(Value::Float(q)),
            }
        },
        (BinaryOpType::Eq, Value::Int(y)) => Ok(
            Value::Bool(
                matches!(crate::num::dec_cmp(&d, &int_to_decimal(&y)), core::cmp::Ordering::Equal),
            ),
        ),
        (BinaryOpType::Eq, Value::Float(e)) => Ok(
            Value::Bool(matches!(crate::num::dec_cmp(&d, &e), core::cmp::Ordering::Equal)),
        ),
        (BinaryOpType::Lt, Value::Int(y)) => Ok(
            Value::Bool(
                matches!(crate::num::dec_cmp(&d, &int_to_decimal(&y)), core::cmp::Ordering::Less),
            ),
        ),
        (BinaryOpType::Lt, Value::Float(e)) => Ok(
            Value::Bool(matches!(crate::num::dec_cmp(&d, &e), core::cmp::Ordering::Less)),
        ),
        (BinaryOpType::Gt, Value::Int(y)) => Ok(
            Value::Bool(
                matches!(
                    crate::num::dec_cmp(&d, &int_to_decimal(&y)),
                    core::cmp::Ordering::Greater
                ),
            ),
        ),
        (BinaryOpType::Gt, Value::Float(e)) => Ok(
            Value::Bool(matches!(crate::num::dec_cmp(&d, &e), core::cmp::Ordering::Greater)),
        ),
        (BinaryOpType::NEq, Value::Int(y)) => Ok(
            Value::Bool(
                !matches!(crate::num::dec_cmp(&d, &int_to_decimal(&y)), core::cmp::Ordering::Equal),
            ),
        ),
        (BinaryOpType::NEq, Value::Float(e)) => Ok(
            Value::Bool(!matches!(crate::num::dec_cmp(&d, &e), core::cmp::Ordering::Equal)),
        ),
        (BinaryOpType::LtEq, Value::Int(y)) => Ok(
            Value::Bool(
                !matches!(
                    crate::num::dec_cmp(&d, &int_to_decimal(&y)),
                    core::cmp::Ordering::Greater
                ),
            ),
        ),
        (BinaryOpType::LtEq, Value::Float(e)) => Ok(
            Value::Bool(!matches!(crate::num::dec_cmp(&d, &e), core::cmp::Ordering::Greater)),
        ),
        (BinaryOpType::GtEq, Value::Int(y)) => Ok(
            Value::Bool(
                !matches!(crate::num::dec_cmp(&d, &int_to_decimal(&y)), core::cmp::Ordering::Less),
            ),
        ),
        (BinaryOpType::GtEq, Value::Float(e)) => Ok(
            Value::Bool(!matches!(crate::num::dec_cmp(&d, &e), core::cmp::Ordering::Less)),
        ),
        (o, v2) => Err(
            RunError::InvalidBinary {
                op: o,
                vtype1: String::from_str("float"),
                vtype2,
                data: *data,
            },
        ),
    }
}

/// The string-on-the-left rows of [`binary_table`].
#[verifier::rlimit(60)]
#[verifier::spinoff_prover]
fn eval_binary_string(s: String, op: BinaryOpType, val2: Value, data: &CacheSpan) -> (r: Result<
    Value,
    RunError,
>)
    requires
        val2.wf(),
    ensures
        res_view(r) == binary_table(op, Val::Str(s@), val2@, *data),
        r matches Ok(v) ==> v.wf(),
{
    let vtype2 = val2.type_label();
    match (op, val2) {
        (BinaryOpType::Add, Value::Bool(c)) => {
            let r = s.concat(
                if c {
                    "true"
                } else {
                    "false"
                },
            );
            Ok(Value::String(r))
        },
        (BinaryOpType::Add, Value::Int(y)) => {
            let t = int_to_text(&y);
            Ok(Value::String(s.concat(t.as_str())))
        },
        (BinaryOpType::Add, Value::Float(d)) => {
            let ghost sl = s@;
            let t = crate::num::dec_to_text(&d);
            let r = s.concat(t.as_str());
            proof {
                assert(r@.subrange(0, sl.len() as int) =~= sl);
            }
            Ok(Value::String(r))
        },
        (BinaryOpType::Add, Value::String(t)) => Ok(Value::String(s.concat(t.as_str()))),
        (BinaryOpType::Mul, Value::Bool(c)) => {
            let count: usize = if c {
                1
            } else {
                0
            };
            let r = repeat_str(s.as_str(), count);
            proof {
                if c {
                    assert(seq_repeat(s@, 0) =~= Seq::<char>::empty());
                    assert(seq_repeat(s@, 1) =~= s@);
                }
            }
            Ok(Value::String(r))
        },
        (BinaryOpType::Mul, Value::Int(y)) => {
            let count = y.to_usize_saturating();
            Ok(Value::String(repeat_str(s.as_str(), count)))
        },
        (BinaryOpType::Eq, Value::String(t)) => Ok(Value::Bool(s == t)),
        (BinaryOpType::Lt, Value::String(t)) => Ok(
            Value::Bool(matches!(str_cmp(s.as_str(), t.as_str()), core::cmp::Ordering::Less)),
        ),
        (BinaryOpType::Gt, Value::String(t)) => Ok(
            Value::Bool(matches!(str_cmp(s.as_str(), t.as_str()), core::cmp::Ordering::Greater)),
        ),
        (BinaryOpType::NEq, Value::String(t)) => Ok(Value::Bool(!(s == t))),
        (BinaryOpType::LtEq, Value::String(t)) => Ok(
            Value::Bool(!matches!(str_cmp(s.as_str(), t.as_str()), core::cmp::Ordering::Greater)),
        ),
        (BinaryOpType::GtEq, Value::String(t)) => Ok(
            Value::Bool(!matches!(str_cmp(s.as_str(), t.as_str()), core::cmp::Ordering::Less)),
        ),
        (o, v2) => Err(
            RunError::InvalidBinary {
                op: o,
                vtype1: String::from_str("string"),
                vtype2,
                data: *data,
            },
        ),
    }
}

/// The boolean-on-the-left rows of [`binary_table`].
#[verifier::rlimit(60)]
#[verifier::spinoff_prover]
fn eval_binary_bool(b: bool, op: BinaryOpType, val2: Value, data: &CacheSpan) -> (r: Result<
    Value,
    RunError,
>)
    requires
        val2.wf(),
    ensures
        res_view(r) == binary_table(op, Val::Bool(b), val2@, *data),
        r matches Ok(v) ==> v.wf(),
{
    let vtype2 = val2.type_label();
    match (op, val2) {
        (BinaryOpType::Eq, Value::Bool(y)) => Ok(Value::Bool(b == y)),
        (BinaryOpType::Lt, Value::Bool(y)) => Ok(Value::Bool(!b && y)),
        (BinaryOpType::Gt, Value::Bool(y)) => Ok(Value::Bool(b && !y)),
        (BinaryOpType::NEq, Value::Bool(y)) => Ok(Value::Bool(b != y)),
        (BinaryOpType::LtEq, Value::Bool(y)) => Ok(Value::Bool(!b || y)),
        (BinaryOpType::GtEq, Value::Bool(y)) => Ok(Value::Bool(b || !y)),
        (BinaryOpType::And, Value::Bool(y)) => Ok(Value::Bool(b && y)),
        (BinaryOpType::Or, Value::Bool(y)) => Ok(Value::Bool(b || y)),
        (o, v2) => Err(
            RunError::InvalidBinary {
                op: o,
                vtype1: String::from_str("bool"),
                vtype2,
                data: *data,
            },
        ),
    }
}


// ---------------------------------------------------------------------------
// Statement and expression evaluation. The language is deterministic — every
// decimal operation's result is named — so its meaning is written down below
// as one spec-level evaluation function per syntactic form, and each
// executable evaluator is proved to return exactly that function's result
// and to leave the engine in exactly that function's state.
//
// The termination checker demands a measure, and the language's own calls
// and loops are unbounded; the specification and the evaluator therefore
// run under a step budget, spent one unit per nested evaluation, of
// usize::MAX at every public entry point, and answer with a budget error in
// the (practically unreachable) case that it runs out.
// ---------------------------------------------------------------------------
/// An expression that cannot write any binding: no assignment and no walrus
/// anywhere in it, its calls included (a call runs entirely in its own
/// frame). Evaluating such an expression leaves the engine unchanged.
pub open spec fn writes_free(e: ExprV) -> bool
    decreases e, 0int,
{
    match e {
        ExprV::Nil => true,
        ExprV::Var(_) => true,
        ExprV::Bool(_) => true,
        ExprV::Int(_) => true,
        ExprV::Float(_) => true,
        ExprV::Str(_) => true,
        ExprV::Call(_, args) => writes_free_all(args),
        ExprV::Unary(_, a) => writes_free(a.item),
        ExprV::Binary(_, a, b) => writes_free(a.item) && writes_free(b.item),
        ExprV::Assign(_, _) => false,
        ExprV::Walrus(_, _) => false,
        ExprV::Ternary(c, a, b) => writes_free(c.item) && writes_free(a.item) && writes_free(
            b.item,
        ),
    }
}

pub open spec fn writes_free_all(s: Seq<NodeV<ExprV>>) -> bool
    decreases s, 1int,
{
    if s.len() == 0 {
        true
    } else {
        writes_free_all(s.drop_last()) && writes_free(s.last().item)
    }
}

pub proof fn lemma_writes_free_all(s: Seq<NodeV<ExprV>>)
    requires
        writes_free_all(s),
    ensures
        forall|i: int| 0 <= i < s.len() ==> writes_free((#[trigger] s[i]).item),
    decreases s.len(),
{
    if s.len() > 0 {
        lemma_writes_free_all(s.drop_last());
        assert forall|i: int| 0 <= i < s.len() implies writes_free((#[trigger] s[i]).item) by {
            if i < s.len() - 1 {
                assert(s.drop_last()[i] == s[i]);
            }
        }
    }
}

// ---------------------------------------------------------------------------
// The big-step evaluation functions: what each syntactic form means, as a
// function from a step budget, an engine state and the form to the result
// and the successor state. Operands and arguments are evaluated left to
// right; the first error aborts the containing form with everything to its
// right unevaluated; a ternary evaluates exactly one branch.
// ---------------------------------------------------------------------------
/// One expression.
pub open spec fn s_eval(fuel: nat, env: EngineV, node: NodeV<ExprV>) -> (Result<Val, RunErrV>,
    EngineV)
    decreases fuel, 0int, 0int,
{
    if fuel == 0 {
        (Err(RunErrV::CallDepthLimit { data: node.span }), env)
    } else {
        let f1 = (fuel - 1) as nat;
        match node.item {
            ExprV::Nil => (Ok(Val::Nil), env),
            ExprV::Bool(b) => (Ok(Val::Bool(b)), env),
            ExprV::Int(i) => (Ok(Val::Int(i)), env),
            ExprV::Float(d) => (Ok(Val::Float(d)), env),
            ExprV::Str(s) => (Ok(Val::Str(s)), env),
            ExprV::Var(x) => match lookup_var(env, x) {
                Some(v) => (Ok(v), env),
                None => (Err(RunErrV::UnknownVariable { ident: x, data: node.span }), env),
            },
            ExprV::Call(fid, args) => {
                let (ra, env1) = s_eval_args(f1, env, args, 0, Seq::empty());
                match ra {
                    Err(e) => (Err(e), env1),
                    Ok(vals) => s_eval_func(f1, env1, fid.item, fid.span, vals),
                }
            },
            ExprV::Unary(op, a) => {
                let (r1, env1) = s_eval(f1, env, *a);
                match r1 {
                    Err(e) => (Err(e), env1),
                    Ok(v) => (unary_table(op, v, node.span), env1),
                }
            },
            ExprV::Binary(op, a, b) => s_eval_binary_pair(f1, env, op, *a, *b, node.span),
            ExprV::Assign(x, sub) => {
                let (r1, env1) = s_eval(f1, env, *sub);
                match r1 {
                    Err(e) => (Err(e), env1),
                    Ok(v) => (Ok(Val::Nil), env_insert_var(env1, x.item, v)),
                }
            },
            ExprV::Walrus(x, sub) => {
                let (r1, env1) = s_eval(f1, env, *sub);
                match r1 {
                    Err(e) => (Err(e), env1),
                    Ok(v) => (Ok(v), env_insert_var(env1, x.item, v)),
                }
            },
            ExprV::Ternary(c, a, b) => {
                let (rc, env1) = s_eval(f1, env, *c);
                match rc {
                    Err(e) => (Err(e), env1),
                    Ok(Val::Bool(true)) => s_eval(f1, env1, *a),
                    Ok(Val::Bool(false)) => s_eval(f1, env1, *b),
                    Ok(other) => (
                        Err(
                            RunErrV::TypeMismatch {
                                expected: "bool"@,
                                found: type_label_of(other),
                                data: c.span,
                            },
                        ),
                        env1,
                    ),
                }
            },
        }
    }
}

/// Both operands of a binary operator, left before right, then the table.
pub open spec fn s_eval_binary_pair(
    fuel: nat,
    env: EngineV,
    op: BinaryOpType,
    a: NodeV<ExprV>,
    b: NodeV<ExprV>,
    span: CacheSpan,
) -> (Result<Val, RunErrV>, EngineV)
    decreases fuel, 1int, 0int,
{
    let (r1, env1) = s_eval(fuel, env, a);
    match r1 {
        Err(e) => (Err(e), env1),
        Ok(v1) => {
            let (r2, env2) = s_eval(fuel, env1, b);
            match r2 {
                Err(e) => (Err(e), env2),
                Ok(v2) => (binary_table(op, v1, v2, span), env2),
            }
        },
    }
}

/// A call's arguments from position `i` on, left to right, accumulating
/// their values.
pub open spec fn s_eval_args(
    fuel: nat,
    env: EngineV,
    args: Seq<NodeV<ExprV>>,
    i: int,
    acc: Seq<Val>,
) -> (Result<Seq<Val>, RunErrV>, EngineV)
    decreases fuel, 1int, args.len() - i,
{
    if i < 0 || i >= args.len() {
        (Ok(acc), env)
    } else {
        let (r, env1) = s_eval(fuel, env, args[i]);
        match r {
            Err(e) => (Err(e), env1),
            Ok(v) => s_eval_args(fuel, env1, args, i + 1, acc.push(v)),
        }
    }
}

/// The supplied argument values bound positionally to the leading
/// parameters; unset trailing parameters are never bound.
pub open spec fn s_bind(
    env: EngineV,
    params: Seq<NodeV<Seq<char>>>,
    vals: Seq<Val>,
    i: int,
) -> EngineV
    decreases params.len() - i,
{
    if i < 0 || i >= params.len() || i >= vals.len() {
        env
    } else {
        s_bind(env_insert_var(env, params[i].item, vals[i]), params, vals, i + 1)
    }
}

/// A call: the callee resolved against the visible frames, a call with more
/// arguments than declared parameters rejected before anything runs, then
/// one call frame pushed, the arguments bound, the native operation or the
/// body statements run (the last statement's value is the call's result),
/// and the frame popped on every exit.
pub open spec fn s_eval_func(
    fuel: nat,
    env: EngineV,
    name: Seq<char>,
    span: CacheSpan,
    vals: Seq<Val>,
) -> (Result<Val, RunErrV>, EngineV)
    decreases fuel, 2int, 0int,
{
    match lookup_func(env, name) {
        None => (Err(RunErrV::UnknownFunction { ident: name, data: span }), env),
        Some(f) => if vals.len() > f.spec_param_count() {
            (
                Err(
                    RunErrV::ParameterCount {
                        expected: f.spec_param_count() as usize,
                        found: vals.len() as usize,
                        data: span,
                    },
                ),
                env,
            )
        } else if fuel == 0 {
            (Err(RunErrV::CallDepthLimit { data: span }), env)
        } else {
            match f {
                FuncTypeV::Native(n) => match n.kind {
                    NativeKind::Print => (Ok(Val::Nil), env),
                },
                FuncTypeV::Custom(cf) => {
                    let pushed = EngineV {
                        global: env.global,
                        frames: env.frames.push(ScopeV { vars: Map::empty(), funcs: Map::empty() }),
                    };
                    let bound = s_bind(pushed, cf.params, vals, 0);
                    let (r, env2) = s_eval_stmts((fuel - 1) as nat, bound, cf.body, 0, Val::Nil);
                    (r, EngineV { global: env2.global, frames: env2.frames.drop_last() })
                },
            }
        },
    }
}

/// One statement.
pub open spec fn s_eval_stmt(fuel: nat, env: EngineV, node: NodeV<StmtV>) -> (Result<
    Val,
    RunErrV,
>, EngineV)
    decreases fuel, 2int, 1int,
{
    match node.item {
        StmtV::Expr(e) => if fuel == 0 {
            (Err(RunErrV::CallDepthLimit { data: node.span }), env)
        } else {
            s_eval((fuel - 1) as nat, env, e)
        },
        StmtV::Func(f) => (
            Ok(Val::Nil),
            env_insert_func(env, f.item.ident.item, FuncTypeV::Custom(f.item)),
        ),
        StmtV::LetAssign(x, e) => if fuel == 0 {
            (Err(RunErrV::CallDepthLimit { data: node.span }), env)
        } else {
            let (r, env1) = s_eval((fuel - 1) as nat, env, e);
            match r {
                Err(er) => (Err(er), env1),
                Ok(v) => (Ok(Val::Nil), env_insert_var(env1, x.item, v)),
            }
        },
        StmtV::Assign(x, e) => if fuel == 0 {
            (Err(RunErrV::CallDepthLimit { data: node.span }), env)
        } else {
            let (r, env1) = s_eval((fuel - 1) as nat, env, e);
            match r {
                Err(er) => (Err(er), env1),
                Ok(v) => (Ok(Val::Nil), env_insert_var(env1, x.item, v)),
            }
        },
        StmtV::While(c, body) => s_eval_while(fuel, env, c, body, node.span),
    }
}

/// Statements in order from position `i`, keeping the last value; the first
/// error aborts the sequence.
pub open spec fn s_eval_stmts(
    fuel: nat,
    env: EngineV,
    stmts: Seq<NodeV<StmtV>>,
    i: int,
    last: Val,
) -> (Result<Val, RunErrV>, EngineV)
    decreases fuel, 3int, stmts.len() - i,
{
    if i < 0 || i >= stmts.len() {
        (Ok(last), env)
    } else {
        let (r, env1) = s_eval_stmt(fuel, env, stmts[i]);
        match r {
            Err(e) => (Err(e), env1),
            Ok(v) => s_eval_stmts(fuel, env1, stmts, i + 1, v),
        }
    }
}

/// A loop: the condition must reduce to a bool; while it is true the body
/// runs in order, any error aborting immediately; on false the loop yields
/// `none`.
pub open spec fn s_eval_while(
    fuel: nat,
    env: EngineV,
    c: NodeV<ExprV>,
    body: Seq<NodeV<StmtV>>,
    span: CacheSpan,
) -> (Result<Val, RunErrV>, EngineV)
    decreases fuel, 2int, 0int,
{
    if fuel == 0 {
        (Err(RunErrV::CallDepthLimit { data: span }), env)
    } else {
        let f1 = (fuel - 1) as nat;
        let (rc, env1) = s_eval(f1, env, c);
        match rc {
            Err(e) => (Err(e), env1),
            Ok(Val::Bool(false)) => (Ok(Val::Nil), env1),
            Ok(Val::Bool(true)) => {
                let (rb, env2) = s_eval_stmts(f1, env1, body, 0, Val::Nil);
                match rb {
                    Err(e) => (Err(e), env2),
                    Ok(_) => s_eval_while(f1, env2, c, body, span),
                }
            },
            Ok(other) => (
                Err(
                    RunErrV::TypeMismatch {
                        expected: "bool"@,
                        found: type_label_of(other),
                        data: c.span,
                    },
                ),
                env1,
            ),
        }
    }
}

/// The abstractions of already-evaluated argument values.
pub open spec fn vals_of(values: Seq<Value>) -> Seq<Val> {
    values.map_values(|v: Value| v@)
}

/// Relies on std::io::Write: hands one line to standard output (the `print`
/// built-in's only effect).
#[verifier::external_body]
fn emit_line(s: &str) {
    let _ = writeln!(std::io::stdout(), "{}", s);
}

/// The display texts of the values, joined with single spaces: the line the
/// print built-in emits.
fn join_display(values: &Vec<Value>) -> (r: String)
    ensures
        r@ == joined_texts(vals_of(values@)),
{
    let ghost vals = vals_of(values@);
    let mut out = String::new();
    let n = values.len();
    let mut i: usize = 0;
    while i < n
        invariant
            i <= n,
            n == values@.len(),
            vals == vals_of(values@),
            out@ == joined_texts(vals.take(i as int)),
        decreases n - i,
    {
        if i > 0 {
            out.append(" ");
        }
        let piece = values[i].to_display();
        out.append(piece.as_str());
        proof {
            assert(vals.take(i + 1).drop_last() =~= vals.take(i as int));
            assert(vals.take(i + 1).last() == vals[i as int]);
            assert(vals[i as int] == values@[i as int]@);
        }
        i = i + 1;
    }
    proof {
        assert(vals.take(n as int) =~= vals);
    }
    out
}

impl Engine {
    /// Evaluates an expression: returns exactly what [`s_eval`] prescribes
    /// and leaves the engine in exactly its successor state. Whatever
    /// happens, the frame stack keeps its depth and everything below the
    /// innermost frame is untouched; an expression free of assignments
    /// leaves the engine exactly as it was.
    #[verifier::loop_isolation(false)]
    #[verifier::rlimit(100)]
    #[verifier::spinoff_prover]
    fn eval_expr_at(&mut self, expr: &Expr, span: CacheSpan, fuel: usize) -> (r: Result<
        Value,
        RunError,
    >)
        requires
            old(self).wf(),
            expr_wf(expr),
        ensures
            final(self).wf(),
            ({
                let (sr, senv) = s_eval(
                    fuel as nat,
                    old(self)@,
                    NodeV { span, item: crate::parser::expr::expr_view(expr) },
                );
                res_view(r) == sr && final(self)@ == senv
            }),
            expr_frames_ok(old(self)@, final(self)@),
            writes_free(crate::parser::expr::expr_view(expr)) ==> final(self)@ == old(self)@,
            r matches Ok(v) ==> v.wf(),
        decreases fuel, 0int,
    {
        if fuel == 0 {
            return Err(RunError::CallDepthLimit { data: span });
        }
        match expr {
            Expr::Nil => Ok(Value::Nil),
            Expr::Bool(b) => Ok(Value::Bool(*b)),
            Expr::Int(v) => Ok(Value::Int(v.clone())),
            Expr::Float(d) => Ok(Value::Float(crate::num::dec_clone(d))),
            Expr::String(s) => Ok(Value::String(s.clone())),
            Expr::Var(x) => match self.get_var(x) {
                Some(v) => Ok(v.clone()),
                None => Err(RunError::UnknownVariable { ident: x.clone(), data: span }),
            },
            Expr::Call(f, args) => {
                let ghost node = NodeV { span, item: crate::parser::expr::expr_view(expr) };
                let ghost argviews = crate::parser::expr::expr_nodes_view(args@);
                let ghost pure = writes_free(node.item);
                proof {
                    crate::parser::expr::lemma_exprs_wf(args@);
                    crate::parser::expr::lemma_expr_nodes_view(args@);
                    if pure {
                        lemma_writes_free_all(argviews);
                    }
                }
                let mut values: Vec<Value> = Vec::new();
                proof {
                    assert(vals_of(values@) =~= Seq::<Val>::empty());
                }
                let n = args.len();
                let mut i: usize = 0;
                while i < n
                    invariant
                        self.wf(),
                        i <= n,
                        values@.len() == i,
                        s_eval_args((fuel - 1) as nat, old(self)@, argviews, 0, Seq::empty())
                            == s_eval_args(
                            (fuel - 1) as nat,
                            self@,
                            argviews,
                            i as int,
                            vals_of(values@),
                        ),
                        expr_frames_ok(old(self)@, self@),
                        pure ==> self@ == old(self)@,
                        forall|k: int| 0 <= k < values@.len() ==> (#[trigger] values@[k]).wf(),
                    decreases n - i,
                {
                    let ghost pre_vals = vals_of(values@);
                    let ghost pre_env = self@;
                    match self.eval_expr_at(&args[i].item, args[i].span, fuel - 1) {
                        Ok(v) => {
                            let ghost vv = v@;
                            values.push(v);
                            proof {
                                assert(vals_of(values@) =~= pre_vals.push(vv));
                            }
                        },
                        Err(e) => {
                            return Err(e);
                        },
                    }
                    i = i + 1;
                }
                proof {
                    assert(s_eval_args(
                        (fuel - 1) as nat,
                        self@,
                        argviews,
                        n as int,
                        vals_of(values@),
                    ) == (Ok::<Seq<Val>, RunErrV>(vals_of(values@)), self@));
                }
                self.eval_func_at(f, values, fuel - 1)
            },
            Expr::Neg(a) => {
                match self.eval_expr_at(&a.item, a.span, fuel - 1) {
                    Err(e) => Err(e),
                    Ok(v) => self.eval_unary(UnaryOpType::Neg, v, &span),
                }
            },
            Expr::Not(a) => {
                match self.eval_expr_at(&a.item, a.span, fuel - 1) {
                    Err(e) => Err(e),
                    Ok(v) => self.eval_unary(UnaryOpType::Not, v, &span),
                }
            },
            Expr::Add(a, b) => self.eval_binop(a, b, BinaryOpType::Add, span, fuel - 1),
            Expr::Sub(a, b) => self.eval_binop(a, b, BinaryOpType::Sub, span, fuel - 1),
            Expr::Mul(a, b) => self.eval_binop(a, b, BinaryOpType::Mul, span, fuel - 1),
            Expr::Div(a, b) => self.eval_binop(a, b, BinaryOpType::Div, span, fuel - 1),
            Expr::Mod(a, b) => self.eval_binop(a, b, BinaryOpType::Mod, span, fuel - 1),
            Expr::Pow(a, b) => self.eval_binop(a, b, BinaryOpType::Pow, span, fuel - 1),
            Expr::And(a, b) => self.eval_binop(a, b, BinaryOpType::And, span, fuel - 1),
            Expr::Or(a, b) => self.eval_binop(a, b, BinaryOpType::Or, span, fuel - 1),
            Expr::Eq(a, b) => self.eval_binop(a, b, BinaryOpType::Eq, span, fuel - 1),
            Expr::Lt(a, b) => self.eval_binop(a, b, BinaryOpType::Lt, span, fuel - 1),
            Expr::Gt(a, b) => self.eval_binop(a, b, BinaryOpType::Gt, span, fuel - 1),
            Expr::NEq(a, b) => self.eval_binop(a, b, BinaryOpType::NEq, span, fuel - 1),
            Expr::LtEq(a, b) => self.eval_binop(a, b, BinaryOpType::LtEq, span, fuel - 1),
            Expr::GtEq(a, b) => self.eval_binop(a, b, BinaryOpType::GtEq, span, fuel - 1),
            Expr::Assign(x, sub) => {
                match self.eval_expr_at(&sub.item, sub.span, fuel - 1) {
                    Err(e) => Err(e),
                    Ok(v) => {
                        self.set_var(x.item.clone(), v);
                        proof {
                            assert(self@.frames.drop_last() =~= old(self)@.frames.drop_last());
                        }
                        Ok(Value::Nil)
                    },
                }
            },
            Expr::Walrus(x, sub) => {
                match self.eval_expr_at(&sub.item, sub.span, fuel - 1) {
                    Err(e) => Err(e),
                    Ok(v) => {
                        let out = v.clone();
                        self.set_var(x.item.clone(), v);
                        proof {
                            assert(self@.frames.drop_last() =~= old(self)@.frames.drop_last());
                        }
                        Ok(out)
                    },
                }
            },
            Expr::Ternary(c, a, b) => {
                match self.eval_expr_at(&c.item, c.span, fuel - 1) {
                    Err(e) => Err(e),
                    Ok(Value::Bool(true)) => self.eval_expr_at(&a.item, a.span, fuel - 1),
                    Ok(Value::Bool(false)) => self.eval_expr_at(&b.item, b.span, fuel - 1),
                    Ok(other) => Err(
                        RunError::TypeMismatch {
                            expected: String::from_str("bool"),
                            found: other.type_label(),
                            data: c.span,
                        },
                    ),
                }
            },
        }
    }

    /// Evaluates the two operands left before right, then applies the binary
    /// operator; shared by every binary expression form.
    #[verifier::loop_isolation(false)]
    #[verifier::rlimit(100)]
    #[verifier::spinoff_prover]
    fn eval_binop(
        &mut self,
        a: &Node<Expr>,
        b: &Node<Expr>,
        op: BinaryOpType,
        span: CacheSpan,
        fuel: usize,
    ) -> (r: Result<Value, RunError>)
        requires
            old(self).wf(),
            expr_wf(&a.item),
            expr_wf(&b.item),
        ensures
            final(self).wf(),
            ({
                let (sr, senv) = s_eval_binary_pair(fuel as nat, old(self)@, op, a@, b@, span);
                res_view(r) == sr && final(self)@ == senv
            }),
            expr_frames_ok(old(self)@, final(self)@),
            writes_free(crate::parser::expr::expr_view(&a.item)) && writes_free(
                crate::parser::expr::expr_view(&b.item),
            ) ==> final(self)@ == old(self)@,
            r matches Ok(v) ==> v.wf(),
        decreases fuel, 1int,
    {
        match self.eval_expr_at(&a.item, a.span, fuel) {
            Err(e) => Err(e),
            Ok(v1) => match self.eval_expr_at(&b.item, b.span, fuel) {
                Err(e) => Err(e),
                Ok(v2) => self.eval_binary(v1, op, v2, &span),
            },
        }
    }

    /// Executes one statement: returns exactly what [`s_eval_stmt`]
    /// prescribes and leaves the engine in exactly its successor state. The
    /// frame stack keeps its depth and only the innermost frame (or, at the
    /// top level, the global frame) is written.
    #[verifier::loop_isolation(false)]
    #[verifier::rlimit(100)]
    #[verifier::spinoff_prover]
    fn eval_stmt_at(&mut self, stmt: &Statement, span: CacheSpan, fuel: usize) -> (r: Result<
        Value,
        RunError,
    >)
        requires
            old(self).wf(),
            stmt_wf(stmt),
        ensures
            final(self).wf(),
            ({
                let (sr, senv) = s_eval_stmt(
                    fuel as nat,
                    old(self)@,
                    NodeV { span, item: crate::parser::statement::stmt_view(stmt) },
                );
                res_view(r) == sr && final(self)@ == senv
            }),
            frames_shape_ok(old(self)@, final(self)@),
            r matches Ok(v) ==> v.wf(),
        decreases fuel, 3int,
    {
        match stmt {
            Statement::Expr(e) => {
                if fuel == 0 {
                    return Err(RunError::CallDepthLimit { data: span });
                }
                self.eval_expr_at(&e.item, e.span, fuel - 1)
            },
            Statement::Func(f) => {
                self.set_func(FuncType::Custom(rc_clone(&f.item)));
                proof {
                    assert(self@.frames.drop_last() =~= old(self)@.frames.drop_last());
                }
                Ok(Value::Nil)
            },
            Statement::LetAssign(x, e) => {
                if fuel == 0 {
                    return Err(RunError::CallDepthLimit { data: span });
                }
                match self.eval_expr_at(&e.item, e.span, fuel - 1) {
                    Err(er) => Err(er),
                    Ok(v) => {
                        self.set_var(x.item.clone(), v);
                        proof {
                            assert(self@.frames.drop_last() =~= old(self)@.frames.drop_last());
                        }
                        Ok(Value::Nil)
                    },
                }
            },
            Statement::Assign(x, e) => {
                if fuel == 0 {
                    return Err(RunError::CallDepthLimit { data: span });
                }
                match self.eval_expr_at(&e.item, e.span, fuel - 1) {
                    Err(er) => Err(er),
                    Ok(v) => {
                        self.set_var(x.item.clone(), v);
                        proof {
                            assert(self@.frames.drop_last() =~= old(self)@.frames.drop_last());
                        }
                        Ok(Value::Nil)
                    },
                }
            },
            Statement::While(c, body) => {
                proof {
                    lemma_stmts_wf(body@);
                    lemma_stmt_nodes_view(body@);
                }
                let ghost cv = crate::parser::expr::expr_node_view(&c.item, c.span);
                let ghost bodyv = crate::parser::statement::stmt_nodes_view(body@);
                let n = body.len();
                let mut budget: usize = fuel;
                loop
                    invariant
                        self.wf(),
                        budget <= fuel,
                        frames_shape_ok(old(self)@, self@),
                        s_eval_while(fuel as nat, old(self)@, cv, bodyv, span) == s_eval_while(
                            budget as nat,
                            self@,
                            cv,
                            bodyv,
                            span,
                        ),
                    decreases budget,
                {
                    if budget == 0 {
                        return Err(RunError::CallDepthLimit { data: span });
                    }
                    let ghost env_top = self@;
                    let cond = match self.eval_expr_at(&c.item, c.span, budget - 1) {
                        Ok(v) => v,
                        Err(e) => {
                            return Err(e);
                        },
                    };
                    match cond {
                        Value::Bool(true) => {},
                        Value::Bool(false) => {
                            return Ok(Value::Nil);
                        },
                        other => {
                            return Err(
                                RunError::TypeMismatch {
                                    expected: String::from_str("bool"),
                                    found: other.type_label(),
                                    data: c.span,
                                },
                            );
                        },
                    }
                    let ghost env_c = self@;
                    proof {
                        assert(s_eval(
                            (budget - 1) as nat,
                            env_top,
                            NodeV { span: c.span, item: crate::parser::expr::expr_view(&c.item) },
                        ) == (Ok::<Val, RunErrV>(Val::Bool(true)), env_c));
                    }
                    let ghost mut lastv: Val = Val::Nil;
                    let mut j: usize = 0;
                    while j < n
                        invariant
                            self.wf(),
                            j <= n,
                            frames_shape_ok(old(self)@, self@),
                            s_eval_stmts((budget - 1) as nat, env_c, bodyv, 0, Val::Nil)
                                == s_eval_stmts(
                                (budget - 1) as nat,
                                self@,
                                bodyv,
                                j as int,
                                lastv,
                            ),
                        decreases n - j,
                    {
                        proof {
                            lemma_stmt_nodes_view(body@);
                        }
                        match self.eval_stmt_at(&body[j].item, body[j].span, budget - 1) {
                            Ok(v) => {
                                proof {
                                    lastv = v@;
                                }
                            },
                            Err(e) => {
                                return Err(e);
                            },
                        }
                        j = j + 1;
                    }
                    proof {
                        assert(s_eval_stmts((budget - 1) as nat, env_c, bodyv, 0, Val::Nil) == (
                        Ok::<Val, RunErrV>(lastv),
                        self@,
                        ));
                        assert(s_eval_while(budget as nat, env_top, cv, bodyv, span)
                            == s_eval_while((budget - 1) as nat, self@, cv, bodyv, span));
                    }
                    budget = budget - 1;
                }
            },
        }
    }

    /// Calls a function by name: returns exactly what [`s_eval_func`]
    /// prescribes, and the caller's engine state is exactly what it was,
    /// success or error.
    #[verifier::loop_isolation(false)]
    #[verifier::rlimit(100)]
    #[verifier::spinoff_prover]
    fn eval_func_at(&mut self, ident: &Node<String>, values: Vec<Value>, fuel: usize) -> (r: Result<
        Value,
        RunError,
    >)
        requires
            old(self).wf(),
            forall|k: int| 0 <= k < values@.len() ==> (#[trigger] values@[k]).wf(),
        ensures
            final(self).wf(),
            final(self)@ == old(self)@,
            res_view(r) == s_eval_func(
                fuel as nat,
                old(self)@,
                ident.item@,
                ident.span,
                vals_of(values@),
            ).0,
            s_eval_func(fuel as nat, old(self)@, ident.item@, ident.span, vals_of(values@)).1
                == old(self)@,
            r matches Ok(v) ==> v.wf(),
        decreases fuel, 2int,
    {
        let ghost svals = vals_of(values@);
        let func = match self.get_func(ident) {
            Ok(f) => f.clone(),
            Err(e) => {
                return Err(e);
            },
        };
        let ghost fv = func@;
        let pc = func.param_count();
        if pc < values.len() {
            return Err(
                RunError::ParameterCount { expected: pc, found: values.len(), data: ident.span },
            );
        }
        if fuel == 0 {
            return Err(RunError::CallDepthLimit { data: ident.span });
        }
        self.push_scope();
        let ghost pushed = self@;
        let mut output = Value::Nil;
        match func {
            FuncType::Native(ndef) => {
                match ndef.kind {
                    NativeKind::Print => {
                        let line = join_display(&values);
                        emit_line(line.as_str());
                        proof {
                            assert(s_eval_func(
                                fuel as nat,
                                old(self)@,
                                ident.item@,
                                ident.span,
                                svals,
                            ) == (Ok::<Val, RunErrV>(Val::Nil), old(self)@));
                        }
                    },
                }
            },
            FuncType::Custom(cf) => {
                let k = if cf.params.len() < values.len() {
                    cf.params.len()
                } else {
                    values.len()
                };
                let ghost paramsv = crate::parser::statement::param_views(cf.params@);
                let mut i: usize = 0;
                while i < k
                    invariant
                        self.wf(),
                        i <= k,
                        k == if cf.params@.len() < values@.len() {
                            cf.params@.len() as int
                        } else {
                            values@.len() as int
                        },
                        s_bind(pushed, paramsv, svals, 0) == s_bind(self@, paramsv, svals, i as int),
                        self@.global == old(self)@.global,
                        self@.frames.len() == old(self)@.frames.len() + 1,
                        self@.frames.drop_last() == old(self)@.frames,
                    decreases k - i,
                {
                    self.set_var(cf.params[i].item.clone(), values[i].clone());
                    proof {
                        assert(self@.frames.drop_last() =~= old(self)@.frames);
                    }
                    i = i + 1;
                }
                proof {
                    lemma_stmts_wf(cf.body@);
                    assert(svals.len() == values@.len());
                    assert(paramsv.len() == cf.params@.len());
                    assert(s_bind(self@, paramsv, svals, k as int) == self@);
                    assert(s_bind(pushed, paramsv, svals, 0) == self@);
                }
                let ghost bound = self@;
                let ghost bodyv = crate::parser::statement::stmt_nodes_view(cf.body@);
                proof {
                    lemma_stmt_nodes_view(cf.body@);
                    assert(pushed =~= EngineV {
                        global: old(self)@.global,
                        frames: old(self)@.frames.push(
                            ScopeV { vars: Map::empty(), funcs: Map::empty() },
                        ),
                    });
                }
                let nb = cf.body.len();
                let mut j: usize = 0;
                while j < nb
                    invariant
                        self.wf(),
                        j <= nb,
                        fuel >= 1,
                        output.wf(),
                        s_eval_stmts((fuel - 1) as nat, bound, bodyv, 0, Val::Nil) == s_eval_stmts(
                            (fuel - 1) as nat,
                            self@,
                            bodyv,
                            j as int,
                            output@,
                        ),
                        self@.global == old(self)@.global,
                        self@.frames.len() == old(self)@.frames.len() + 1,
                        self@.frames.drop_last() == old(self)@.frames,
                    decreases nb - j,
                {
                    proof {
                        lemma_stmt_nodes_view(cf.body@);
                    }
                    match self.eval_stmt_at(&cf.body[j].item, cf.body[j].span, fuel - 1) {
                        Ok(v) => {
                            output = v;
                        },
                        Err(e) => {
                            proof {
                                assert(s_eval_stmts(
                                    (fuel - 1) as nat,
                                    bound,
                                    bodyv,
                                    0,
                                    Val::Nil,
                                ) == (Err::<Val, RunErrV>(e@), self@));
                                assert(EngineV {
                                    global: self@.global,
                                    frames: self@.frames.drop_last(),
                                } =~= old(self)@);
                                assert(s_eval_func(
                                    fuel as nat,
                                    old(self)@,
                                    ident.item@,
                                    ident.span,
                                    svals,
                                ) == (Err::<Val, RunErrV>(e@), old(self)@));
                            }
                            self.pop_scope();
                            proof {
                                assert(final(self)@ =~= old(self)@);
                            }
                            return Err(e);
                        },
                    }
                    j = j + 1;
                }
                proof {
                    assert(s_eval_stmts((fuel - 1) as nat, bound, bodyv, 0, Val::Nil) == (Ok::<
                        Val,
                        RunErrV,
                    >(output@), self@));
                    assert(EngineV { global: self@.global, frames: self@.frames.drop_last() }
                        =~= old(self)@);
                    assert(s_eval_func(fuel as nat, old(self)@, ident.item@, ident.span, svals)
                        == (Ok::<Val, RunErrV>(output@), old(self)@));
                }
            },
        }
        self.pop_scope();
        proof {
            assert(final(self)@ =~= old(self)@);
        }
        Ok(output)
    }

    /// Evaluates one expression under the full step budget; the execution
    /// entry point a host calls for a stand-alone expression. The result and
    /// the engine's new state are exactly what [`s_eval`] prescribes; an
    /// expression free of assignments leaves the engine unchanged.
    pub fn eval(&mut self, expr: &Node<Expr>) -> (r: Result<Value, RunError>)
        requires
            old(self).wf(),
            expr_wf(&expr.item),
        ensures
            final(self).wf(),
            ({
                let (sr, senv) = s_eval(usize::MAX as nat, old(self)@, expr@);
                res_view(r) == sr && final(self)@ == senv
            }),
            expr_frames_ok(old(self)@, final(self)@),
            writes_free(expr@.item) ==> final(self)@ == old(self)@,
            r matches Ok(v) ==> v.wf(),
    {
        self.eval_expr_at(&expr.item, expr.span, usize::MAX)
    }

    /// Executes one statement under the full step budget; the execution
    /// entry point a host loop calls once per top-level statement. The
    /// result and the engine's new state are exactly what [`s_eval_stmt`]
    /// prescribes.
    pub fn eval_statement(&mut self, statement: &Node<Statement>) -> (r: Result<Value, RunError>)
        requires
            old(self).wf(),
            stmt_wf(&statement.item),
        ensures
            final(self).wf(),
            ({
                let (sr, senv) = s_eval_stmt(usize::MAX as nat, old(self)@, statement@);
                res_view(r) == sr && final(self)@ == senv
            }),
            frames_shape_ok(old(self)@, final(self)@),
            r matches Ok(v) ==> v.wf(),
    {
        self.eval_stmt_at(&statement.item, statement.span, usize::MAX)
    }

    /// Calls a function by name with already-evaluated arguments, under the
    /// full step budget. The result is exactly what [`s_eval_func`]
    /// prescribes, and the engine state is exactly what it was.
    pub fn eval_func(&mut self, ident: &Node<String>, values: Vec<Value>) -> (r: Result<
        Value,
        RunError,
    >)
        requires
            old(self).wf(),
            forall|k: int| 0 <= k < values@.len() ==> (#[trigger] values@[k]).wf(),
        ensures
            final(self).wf(),
            final(self)@ == old(self)@,
            res_view(r) == s_eval_func(
                usize::MAX as nat,
                old(self)@,
                ident.item@,
                ident.span,
                vals_of(values@),
            ).0,
            r matches Ok(v) ==> v.wf(),
    {
        self.eval_func_at(ident, values, usize::MAX)
    }
}

} // verus!
