use crate::engine::value::{Val, Value};
use crate::parser::statement::{func_view, func_wf, Func, FuncV};
use std::rc::Rc;
use vstd::prelude::*;

verus! {

/// The built-in operations a native function can perform.
#[derive(Debug, Clone, Copy, PartialEq, Eq, Structural)]
pub enum NativeKind {
    Print,
}

/// A host-registered function: a name, a declared parameter count, and the
/// built-in operation it performs.
#[derive(Debug)]
pub struct NativeDef {
    pub name: String,
    pub param_count: usize,
    pub kind: NativeKind,
}

/// A function as stored in a frame: engine-registered native, or
/// user-defined. User definitions are shared, since a call clones its callee
/// out of the frame before running it.
#[derive(Debug)]
pub enum FuncType {
    Native(NativeDef),
    Custom(Rc<Func>),
}

/// The abstraction of a native function.
#[verifier::ext_equal]
pub struct NativeV {
    pub name: Seq<char>,
    pub param_count: usize,
    pub kind: NativeKind,
}

/// The abstraction of a stored function.
#[verifier::ext_equal]
pub enum FuncTypeV {
    Native(NativeV),
    Custom(FuncV),
}

impl View for FuncType {
    type V = FuncTypeV;

    open spec fn view(&self) -> FuncTypeV {
        match self {
            FuncType::Native(n) => FuncTypeV::Native(
                NativeV { name: n.name@, param_count: n.param_count, kind: n.kind },
            ),
            FuncType::Custom(f) => FuncTypeV::Custom(func_view(&**f)),
        }
    }
}

impl FuncTypeV {
    /// The arity bound used for argument-count checking: a custom function's
    /// parameter list length, a native function's declared count.
    pub open spec fn spec_param_count(self) -> int {
        match self {
            FuncTypeV::Native(n) => n.param_count as int,
            FuncTypeV::Custom(f) => f.params.len() as int,
        }
    }

    /// The name a function is stored under.
    pub open spec fn spec_name(self) -> Seq<char> {
        match self {
            FuncTypeV::Native(n) => n.name,
            FuncTypeV::Custom(f) => f.ident.item,
        }
    }
}

/// A stored function's statement body holds only canonical integer
/// literals.
pub open spec fn functype_wf(f: &FuncType) -> bool {
    match f {
        FuncType::Native(_) => true,
        FuncType::Custom(rc) => func_wf(&**rc),
    }
}

impl FuncType {
    /// The name this function is registered under in a frame.
    pub fn name(&self) -> (r: &String)
        ensures
            r@ == self@.spec_name(),
    {
        match self {
            FuncType::Native(n) => &n.name,
            FuncType::Custom(f) => &f.ident.item,
        }
    }

    /// The declared parameter count (the arity bound).
    pub fn param_count(&self) -> (r: usize)
        ensures
            r == self@.spec_param_count(),
    {
        match self {
            FuncType::Native(n) => n.param_count,
            FuncType::Custom(f) => f.params.len(),
        }
    }
}

impl Clone for FuncType {
    fn clone(&self) -> (r: Self)
        ensures
            r@ == self@,
            functype_wf(self) ==> functype_wf(&r),
    {
        match self {
            FuncType::Native(n) => FuncType::Native(
                NativeDef { name: n.name.clone(), param_count: n.param_count, kind: n.kind },
            ),
            FuncType::Custom(f) => FuncType::Custom(rc_clone(f)),
        }
    }
}

/// Relies on Rc::clone: the returned handle is to the same allocation.
#[verifier::external_body]
pub(crate) fn rc_clone<T>(rc: &Rc<T>) -> (r: Rc<T>)
    ensures
        r == *rc,
{
    Rc::clone(rc)
}

// ---------------------------------------------------------------------------
// One frame: a mapping from identifier to value and one from identifier to
// function, each with unique keys and no defined iteration order.
// ---------------------------------------------------------------------------
/// The abstraction of a frame: its two mappings.
pub struct ScopeV {
    pub vars: Map<Seq<char>, Val>,
    pub funcs: Map<Seq<char>, FuncTypeV>,
}

/// The mapping an association list denotes; a later entry would win, and the
/// well-formed frame keeps its keys unique.
pub open spec fn vars_map(s: Seq<(String, Value)>) -> Map<Seq<char>, Val>
    decreases s.len(),
{
    if s.len() == 0 {
        Map::empty()
    } else {
        vars_map(s.drop_last()).insert(s.last().0@, s.last().1@)
    }
}

pub open spec fn funcs_map(s: Seq<(String, FuncType)>) -> Map<Seq<char>, FuncTypeV>
    decreases s.len(),
{
    if s.len() == 0 {
        Map::empty()
    } else {
        funcs_map(s.drop_last()).insert(s.last().0@, s.last().1@)
    }
}

/// A variable or function frame, either the global frame or one call's.
#[derive(Debug)]
pub struct Scope {
    vars: Vec<(String, Value)>,
    funcs: Vec<(String, FuncType)>,
}

impl View for Scope {
    type V = ScopeV;

    closed spec fn view(&self) -> ScopeV {
        ScopeV { vars: vars_map(self.vars@), funcs: funcs_map(self.funcs@) }
    }
}

impl Scope {
    /// Keys are unique and stored values canonical.
    pub closed spec fn wf(&self) -> bool {
        &&& (forall|i: int, j: int|
            0 <= i < j < self.vars@.len() ==> (#[trigger] self.vars@[i]).0@ != (
            #[trigger] self.vars@[j]).0@)
        &&& (forall|i: int, j: int|
            0 <= i < j < self.funcs@.len() ==> (#[trigger] self.funcs@[i]).0@ != (
            #[trigger] self.funcs@[j]).0@)
        &&& (forall|i: int| 0 <= i < self.vars@.len() ==> (#[trigger] self.vars@[i]).1.wf())
        &&& (forall|i: int| 0 <= i < self.funcs@.len() ==> functype_wf(&(#[trigger] self.funcs@[i]).1))
    }

    pub fn new() -> (r: Scope)
        ensures
            r.wf(),
            r@.vars === Map::empty(),
            r@.funcs === Map::empty(),
    {
        Scope { vars: Vec::new(), funcs: Vec::new() }
    }

    pub fn has_var(&self, ident: &String) -> (r: bool)
        requires
            self.wf(),
        ensures
            r == self@.vars.contains_key(ident@),
    {
        match self.get_var(ident) {
            Some(_) => true,
            None => false,
        }
    }

    /// The value bound to the identifier in this frame, if any.
    pub fn get_var(&self, ident: &String) -> (r: Option<&Value>)
        requires
            self.wf(),
        ensures
            match r {
                Some(v) => self@.vars.contains_key(ident@) && v@ == self@.vars[ident@] && v.wf(),
                None => !self@.vars.contains_key(ident@),
            },
    {
        proof {
            lemma_vars_map(self.vars@);
        }
        let n = self.vars.len();
        let mut i: usize = 0;
        while i < n
            invariant
                self.wf(),
                n == self.vars@.len(),
                i <= n,
                forall|k: int| 0 <= k < i ==> (#[trigger] self.vars@[k]).0@ != ident@,
            decreases n - i,
        {
            if self.vars[i].0 == *ident {
                proof {
                    lemma_vars_map(self.vars@);
                }
                return Some(&self.vars[i].1);
            }
            i = i + 1;
        }
        proof {
            lemma_vars_map(self.vars@);
            if self@.vars.contains_key(ident@) {
                let w = choose|w: int|
                    0 <= w < self.vars@.len() && (#[trigger] self.vars@[w]).0@ == ident@;
                assert(false);
            }
        }
        None
    }

    /// Creates or overwrites the binding in this frame.
    pub fn init_var(&mut self, ident: String, value: Value)
        requires
            old(self).wf(),
            value.wf(),
        ensures
            final(self).wf(),
            final(self)@.vars == old(self)@.vars.insert(ident@, value@),
            final(self)@.funcs == old(self)@.funcs,
    {
        proof {
            lemma_vars_map(self.vars@);
        }
        let n = self.vars.len();
        let mut i: usize = 0;
        while i < n
            invariant
                old(self).wf(),
                self == old(self),
                n == self.vars@.len(),
                i <= n,
                value.wf(),
                forall|k: int| 0 <= k < i ==> (#[trigger] self.vars@[k]).0@ != ident@,
            decreases n - i,
        {
            if self.vars[i].0 == ident {
                let ghost prev = self.vars@;
                let ghost idv = ident@;
                let ghost gv = value;
                self.vars[i] = (ident, value);
                proof {
                    let cur = self.vars@;
                    assert(cur[i as int].0@ == idv && prev[i as int].0@ == idv);
                    lemma_vars_map_update(prev, i as int, cur[i as int]);
                    assert forall|a: int, b: int| 0 <= a < b < cur.len() implies (
                    #[trigger] cur[a]).0@ != (#[trigger] cur[b]).0@ by {
                        assert(prev[a].0@ != prev[b].0@);
                        if a != i {
                            assert(cur[a] == prev[a]);
                        }
                        if b != i {
                            assert(cur[b] == prev[b]);
                        }
                    }
                    assert forall|k: int| 0 <= k < cur.len() implies (#[trigger] cur[k]).1.wf() by {
                        if k != i {
                            assert(cur[k] == prev[k]);
                        } else {
                            assert(cur[k].1 == gv);
                            assert(gv.wf());
                        }
                    }
                    assert(final(self)@.vars =~= old(self)@.vars.insert(cur[i as int].0@, value@));
                }
                return ;
            }
            i = i + 1;
        }
        let ghost prev = self.vars@;
        self.vars.push((ident, value));
        proof {
            assert(self.vars@.drop_last() =~= prev);
            lemma_vars_map(prev);
        }
    }

    /// Overwrites an existing binding, or hands the value back when the
    /// identifier is not bound here.
    pub fn set_var(&mut self, ident: &String, new_value: Value) -> (r: Option<Value>)
        requires
            old(self).wf(),
            new_value.wf(),
        ensures
            final(self).wf(),
            final(self)@.funcs == old(self)@.funcs,
            match r {
                Some(v) => {
                    &&& !old(self)@.vars.contains_key(ident@)
                    &&& v == new_value
                    &&& final(self)@.vars == old(self)@.vars
                },
                None => {
                    &&& old(self)@.vars.contains_key(ident@)
                    &&& final(self)@.vars == old(self)@.vars.insert(ident@, new_value@)
                },
            },
    {
        proof {
            lemma_vars_map(self.vars@);
        }
        let n = self.vars.len();
        let mut i: usize = 0;
        while i < n
            invariant
                old(self).wf(),
                self == old(self),
                n == self.vars@.len(),
                i <= n,
                new_value.wf(),
                forall|k: int| 0 <= k < i ==> (#[trigger] self.vars@[k]).0@ != ident@,
            decreases n - i,
        {
            if self.vars[i].0 == *ident {
                let ghost prev = self.vars@;
                let ghost gv = new_value;
                let key = self.vars[i].0.clone();
                self.vars[i] = (key, new_value);
                proof {
                    let cur = self.vars@;
                    assert(cur[i as int].0@ == ident@ && prev[i as int].0@ == ident@);
                    lemma_vars_map_update(prev, i as int, cur[i as int]);
                    assert forall|a: int, b: int| 0 <= a < b < cur.len() implies (
                    #[trigger] cur[a]).0@ != (#[trigger] cur[b]).0@ by {
                        assert(prev[a].0@ != prev[b].0@);
                        if a != i {
                            assert(cur[a] == prev[a]);
                        }
                        if b != i {
                            assert(cur[b] == prev[b]);
                        }
                    }
                    assert forall|k: int| 0 <= k < cur.len() implies (#[trigger] cur[k]).1.wf() by {
                        if k != i {
                            assert(cur[k] == prev[k]);
                        } else {
                            assert(cur[k].1 == gv);
                            assert(gv.wf());
                        }
                    }
                    assert(final(self)@.vars =~= old(self)@.vars.insert(ident@, new_value@));
                    lemma_vars_map(prev);
                }
                return None;
            }
            i = i + 1;
        }
        proof {
            lemma_vars_map(self.vars@);
            if self@.vars.contains_key(ident@) {
                let w = choose|w: int|
                    0 <= w < self.vars@.len() && (#[trigger] self.vars@[w]).0@ == ident@;
                assert(false);
            }
        }
        Some(new_value)
    }

    /// The function registered under the identifier in this frame, if any.
    pub fn get_func(&self, ident: &String) -> (r: Option<&FuncType>)
        requires
            self.wf(),
        ensures
            match r {
                Some(f) => self@.funcs.contains_key(ident@) && f@ == self@.funcs[ident@]
                    && functype_wf(f),
                None => !self@.funcs.contains_key(ident@),
            },
    {
        proof {
            lemma_funcs_map(self.funcs@);
        }
        let n = self.funcs.len();
        let mut i: usize = 0;
        while i < n
            invariant
                self.wf(),
                n == self.funcs@.len(),
                i <= n,
                forall|k: int| 0 <= k < i ==> (#[trigger] self.funcs@[k]).0@ != ident@,
            decreases n - i,
        {
            if self.funcs[i].0 == *ident {
                proof {
                    lemma_funcs_map(self.funcs@);
                }
                return Some(&self.funcs[i].1);
            }
            i = i + 1;
        }
        proof {
            lemma_funcs_map(self.funcs@);
            if self@.funcs.contains_key(ident@) {
                let w = choose|w: int|
                    0 <= w < self.funcs@.len() && (#[trigger] self.funcs@[w]).0@ == ident@;
                assert(false);
            }
        }
        None
    }

    /// Registers the function under its own name, creating or overwriting.
    pub fn init_func(&mut self, func: FuncType)
        requires
            old(self).wf(),
            functype_wf(&func),
        ensures
            final(self).wf(),
            final(self)@.vars == old(self)@.vars,
            final(self)@.funcs == old(self)@.funcs.insert(func@.spec_name(), func@),
    {
        let name = func.name().clone();
        proof {
            lemma_funcs_map(self.funcs@);
        }
        let n = self.funcs.len();
        let mut i: usize = 0;
        while i < n
            invariant
                old(self).wf(),
                self == old(self),
                n == self.funcs@.len(),
                i <= n,
                functype_wf(&func),
                name@ == func@.spec_name(),
                forall|k: int| 0 <= k < i ==> (#[trigger] self.funcs@[k]).0@ != name@,
            decreases n - i,
        {
            if self.funcs[i].0 == name {
                let ghost prev = self.funcs@;
                let ghost fview = func@;
                let ghost gf = func;
                let ghost idv = name@;
                self.funcs[i] = (name, func);
                proof {
                    let cur = self.funcs@;
                    assert(cur[i as int].0@ == idv && prev[i as int].0@ == idv);
                    lemma_funcs_map_update(prev, i as int, cur[i as int]);
                    assert forall|a: int, b: int| 0 <= a < b < cur.len() implies (
                    #[trigger] cur[a]).0@ != (#[trigger] cur[b]).0@ by {
                        assert(prev[a].0@ != prev[b].0@);
                        if a != i {
                            assert(cur[a] == prev[a]);
                        }
                        if b != i {
                            assert(cur[b] == prev[b]);
                        }
                    }
                    assert forall|k: int| 0 <= k < cur.len() implies functype_wf(
                        &(#[trigger] cur[k]).1,
                    ) by {
                        if k != i {
                            assert(cur[k] == prev[k]);
                        } else {
                            assert(cur[k].1 == gf);
                        }
                    }
                    assert(final(self)@.funcs =~= old(self)@.funcs.insert(fview.spec_name(), fview));
                }
                return ;
            }
            i = i + 1;
        }
        let ghost prev = self.funcs@;
        self.funcs.push((name, func));
        proof {
            assert(self.funcs@.drop_last() =~= prev);
            lemma_funcs_map(prev);
        }
    }
}

/// What the association-list mapping holds: each entry is in the map (under
/// unique keys, at its own value), and every key in the map has an entry.
pub proof fn lemma_vars_map(s: Seq<(String, Value)>)
    ensures
        forall|k: Seq<char>|
            vars_map(s).contains_key(k) ==> exists|i: int|
                0 <= i < s.len() && (#[trigger] s[i]).0@ == k,
        (forall|i: int, j: int| 0 <= i < j < s.len() ==> (#[trigger] s[i]).0@ != (#[trigger] s[j]).0@)
            ==> forall|i: int|
            0 <= i < s.len() ==> vars_map(s).contains_key((#[trigger] s[i]).0@) && vars_map(s)[
                s[i].0@
            ] == s[i].1@,
    decreases s.len(),
{
    if s.len() > 0 {
        let rest = s.drop_last();
        lemma_vars_map(rest);
        assert forall|k: Seq<char>| vars_map(s).contains_key(k) implies exists|i: int|
            0 <= i < s.len() && (#[trigger] s[i]).0@ == k by {
            if k == s.last().0@ {
                assert((#[trigger] s[s.len() - 1]).0@ == k);
            } else {
                assert(vars_map(rest).contains_key(k));
                let w = choose|w: int| 0 <= w < rest.len() && (#[trigger] rest[w]).0@ == k;
                assert((#[trigger] s[w]).0@ == k);
            }
        }
        if forall|i: int, j: int|
            0 <= i < j < s.len() ==> (#[trigger] s[i]).0@ != (#[trigger] s[j]).0@ {
            assert forall|a: int, b: int| 0 <= a < b < rest.len() implies (#[trigger] rest[a]).0@
                != (#[trigger] rest[b]).0@ by {
                assert(rest[a] == s[a] && rest[b] == s[b]);
            }
            assert forall|i: int| 0 <= i < s.len() implies vars_map(s).contains_key(
                (#[trigger] s[i]).0@,
            ) && vars_map(s)[s[i].0@] == s[i].1@ by {
                if i < s.len() - 1 {
                    assert(rest[i] == s[i]);
                    assert(vars_map(rest).contains_key(s[i].0@));
                    assert(s[i].0@ != s[s.len() - 1].0@);
                }
            }
        }
    }
}

pub proof fn lemma_funcs_map(s: Seq<(String, FuncType)>)
    ensures
        forall|k: Seq<char>|
            funcs_map(s).contains_key(k) ==> exists|i: int|
                0 <= i < s.len() && (#[trigger] s[i]).0@ == k,
        (forall|i: int, j: int| 0 <= i < j < s.len() ==> (#[trigger] s[i]).0@ != (#[trigger] s[j]).0@)
            ==> forall|i: int|
            0 <= i < s.len() ==> funcs_map(s).contains_key((#[trigger] s[i]).0@) && funcs_map(s)[
                s[i].0@
            ] == s[i].1@,
    decreases s.len(),
{
    if s.len() > 0 {
        let rest = s.drop_last();
        lemma_funcs_map(rest);
        assert forall|k: Seq<char>| funcs_map(s).contains_key(k) implies exists|i: int|
            0 <= i < s.len() && (#[trigger] s[i]).0@ == k by {
            if k == s.last().0@ {
                assert((#[trigger] s[s.len() - 1]).0@ == k);
            } else {
                assert(funcs_map(rest).contains_key(k));
                let w = choose|w: int| 0 <= w < rest.len() && (#[trigger] rest[w]).0@ == k;
                assert((#[trigger] s[w]).0@ == k);
            }
        }
        if forall|i: int, j: int|
            0 <= i < j < s.len() ==> (#[trigger] s[i]).0@ != (#[trigger] s[j]).0@ {
            assert forall|a: int, b: int| 0 <= a < b < rest.len() implies (#[trigger] rest[a]).0@
                != (#[trigger] rest[b]).0@ by {
                assert(rest[a] == s[a] && rest[b] == s[b]);
            }
            assert forall|i: int| 0 <= i < s.len() implies funcs_map(s).contains_key(
                (#[trigger] s[i]).0@,
            ) && funcs_map(s)[s[i].0@] == s[i].1@ by {
                if i < s.len() - 1 {
                    assert(rest[i] == s[i]);
                    assert(funcs_map(rest).contains_key(s[i].0@));
                    assert(s[i].0@ != s[s.len() - 1].0@);
                }
            }
        }
    }
}

/// Replacing one entry, key view kept, turns the mapping into an insert.
pub proof fn lemma_vars_map_update(s: Seq<(String, Value)>, i: int, entry: (String, Value))
    requires
        0 <= i < s.len(),
        entry.0@ == s[i].0@,
        forall|a: int, b: int| 0 <= a < b < s.len() ==> (#[trigger] s[a]).0@ != (#[trigger] s[b]).0@,
    ensures
        vars_map(s.update(i, entry)) == vars_map(s).insert(entry.0@, entry.1@),
    decreases s.len(),
{
    let t = s.update(i, entry);
    if i == s.len() - 1 {
        assert(t.drop_last() =~= s.drop_last());
        assert(vars_map(t) =~= vars_map(s).insert(entry.0@, entry.1@));
    } else {
        lemma_vars_map_update(s.drop_last(), i, entry);
        assert(t.drop_last() =~= s.drop_last().update(i, entry));
        assert(t.last() == s.last());
        lemma_vars_map(s.drop_last());
        assert(s.last().0@ != entry.0@);
        assert(vars_map(t) =~= vars_map(s).insert(entry.0@, entry.1@));
    }
}

pub proof fn lemma_funcs_map_update(s: Seq<(String, FuncType)>, i: int, entry: (String, FuncType))
    requires
        0 <= i < s.len(),
        entry.0@ == s[i].0@,
        forall|a: int, b: int| 0 <= a < b < s.len() ==> (#[trigger] s[a]).0@ != (#[trigger] s[b]).0@,
    ensures
        funcs_map(s.update(i, entry)) == funcs_map(s).insert(entry.0@, entry.1@),
    decreases s.len(),
{
    let t = s.update(i, entry);
    if i == s.len() - 1 {
        assert(t.drop_last() =~= s.drop_last());
        assert(funcs_map(t) =~= funcs_map(s).insert(entry.0@, entry.1@));
    } else {
        lemma_funcs_map_update(s.drop_last(), i, entry);
        assert(t.drop_last() =~= s.drop_last().update(i, entry));
        assert(t.last() == s.last());
        lemma_funcs_map(s.drop_last());
        assert(s.last().0@ != entry.0@);
        assert(funcs_map(t) =~= funcs_map(s).insert(entry.0@, entry.1@));
    }
}

} // verus!
