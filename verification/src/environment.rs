use std::rc::Rc;
use vstd::prelude::*;

use crate::numerics::eq_bits;
use crate::numerics::num_eq;
use crate::statement::Stmt;
use vstd::string::StringExecFns;

verus! {

/// A runtime value: the tagged union over everything an expression can
/// produce. One case is active at a time; values of different cases are
/// never coerced into one another.
#[derive(Debug, PartialEq)]
pub enum Object {
    /// A number: an IEEE-754 binary64 value, carried as its bit pattern.
    Number(u64),
    Boolean(bool),
    /// Owned text, immutable once constructed.
    Str(String),
    /// The explicit "no value".
    Nil,
    /// Sentinel for a declared-but-unassigned binding; distinct from Nil.
    Unitialized,
    /// A closure: parameter names, body, and the index of the environment
    /// captured at the definition site.
    Function { name: String, params: Rc<Vec<String>>, body: Rc<Vec<Stmt>>, env: usize },
    /// A host-provided primitive, identified by name; its behaviour is
    /// supplied by a `NativeRegistry`.
    Builtin(String),
}

/// The mathematical model of a runtime value.
pub ghost enum Val {
    Num(u64),
    Bool(bool),
    Strv(Seq<char>),
    Nil,
    Uninit,
    Fun { name: Seq<char>, params: Seq<Seq<char>>, body: Seq<Stmt>, env: int },
    Builtin(Seq<char>),
}

impl View for Object {
    type V = Val;

    open spec fn view(&self) -> Val {
        match self {
            Object::Number(n) => Val::Num(*n),
            Object::Boolean(b) => Val::Bool(*b),
            Object::Str(s) => Val::Strv(s@),
            Object::Nil => Val::Nil,
            Object::Unitialized => Val::Uninit,
            Object::Function { name, params, body, env } => Val::Fun {
                name: name@,
                params: params@.map_values(|p: String| p@),
                body: body@,
                env: *env as int,
            },
            Object::Builtin(name) => Val::Builtin(name@),
        }
    }
}

/// Truthiness: only Nil and the uninitialized sentinel are falsy, a
/// boolean is its own value, and every other value (zero and the empty
/// string included) is truthy.
pub open spec fn truthy_s(v: Val) -> bool {
    match v {
        Val::Nil | Val::Uninit => false,
        Val::Bool(b) => b,
        _ => true,
    }
}

/// Equality is variant-homogeneous: values of different variants are
/// unequal, with no coercion. Numbers compare by IEEE equality, booleans
/// and strings by value; functions and builtins equal nothing.
pub open spec fn equal_vals(a: Val, b: Val) -> bool {
    match (a, b) {
        (Val::Nil, Val::Nil) => true,
        (Val::Uninit, Val::Uninit) => true,
        (Val::Num(x), Val::Num(y)) => eq_bits(x, y),
        (Val::Bool(x), Val::Bool(y)) => x == y,
        (Val::Strv(x), Val::Strv(y)) => x == y,
        _ => false,
    }
}

/// Whether a value can stand as a call target.
pub open spec fn callable_s(v: Val) -> bool {
    v is Fun || v is Builtin
}

/// The declared argument count of a callable: a function's parameter
/// count; builtins take no arguments in this core; anything else is 0.
pub open spec fn arity_s(v: Val) -> int {
    match v {
        Val::Fun { params, .. } => params.len() as int,
        _ => 0,
    }
}

/// Relies on `Rc::clone`: returns a second handle to the same value.
#[verifier::external_body]
pub(crate) fn rc_dup<T>(r: &Rc<T>) -> (res: Rc<T>)
    ensures
        res == *r,
{
    r.clone()
}

impl Object {
    pub fn is_thuthy(self) -> (r: bool)
        ensures
            r == truthy_s(self@),
    {
        match self {
            Object::Nil | Object::Unitialized => false,
            Object::Boolean(v) => v,
            _ => true,
        }
    }

    pub fn is_equal(&self, other: Object) -> (r: bool)
        ensures
            r == equal_vals(self@, other@),
    {
        match (self, &other) {
            (Object::Nil, Object::Nil) => true,
            (Object::Unitialized, Object::Unitialized) => true,
            (Object::Nil, _) => false,
            (Object::Unitialized, _) => false,
            (Object::Number(a1), Object::Number(a2)) => num_eq(*a1, *a2),
            (Object::Boolean(a1), Object::Boolean(a2)) => *a1 == *a2,
            (Object::Str(a1), Object::Str(a2)) => *a1 == *a2,
            _ => false,
        }
    }

    pub fn is_callable(&self) -> (r: bool)
        ensures
            r == callable_s(self@),
    {
        match self {
            Object::Function { .. } => true,
            Object::Builtin(_) => true,
            _ => false,
        }
    }

    pub fn arity(&self) -> (r: usize)
        ensures
            r as int == arity_s(self@),
    {
        match self {
            Object::Function { params, .. } => params.len(),
            _ => 0,
        }
    }

    /// A fresh value equal to this one. Closures share their parameter
    /// list, body and captured environment with the original.
    pub fn dup(&self) -> (r: Object)
        ensures
            r == *self,
    {
        match self {
            Object::Number(n) => Object::Number(*n),
            Object::Boolean(b) => Object::Boolean(*b),
            Object::Str(s) => Object::Str(s.clone()),
            Object::Nil => Object::Nil,
            Object::Unitialized => Object::Unitialized,
            Object::Function { name, params, body, env } => Object::Function {
                name: name.clone(),
                params: rc_dup(params),
                body: rc_dup(body),
                env: *env,
            },
            Object::Builtin(name) => Object::Builtin(name.clone()),
        }
    }
}

/// The comma-separated joining of a list of texts.
pub open spec fn csv_s(ss: Seq<Seq<char>>) -> Seq<char>
    decreases ss.len(),
{
    if ss.len() == 0 {
        Seq::empty()
    } else if ss.len() == 1 {
        ss[0]
    } else {
        ss[0] + ", "@ + csv_s(ss.drop_first())
    }
}

fn csv_from(arr: &Vec<String>, i: usize) -> (r: String)
    requires
        i <= arr.len(),
    ensures
        r@ == csv_s(arr@.map_values(|s: String| s@).skip(i as int)),
    decreases arr.len() - i,
{
    let ghost ms = arr@.map_values(|s: String| s@);
    if i == arr.len() {
        assert(ms.skip(i as int).len() == 0);
        String::new()
    } else if i + 1 == arr.len() {
        assert(ms.skip(i as int)[0] == ms[i as int]);
        arr[i].clone()
    } else {
        let head = arr[i].clone();
        let rest = csv_from(arr, i + 1);
        proof {
            assert(ms.skip(i as int).drop_first() =~= ms.skip(i as int + 1));
            assert(ms.skip(i as int)[0] == ms[i as int]);
        }
        head.concat(", ").concat(rest.as_str())
    }
}

/// Joins the given texts with `", "`, as used when rendering a closure's
/// parameter list.
pub fn csv_str(arr: &Vec<String>) -> (r: String)
    ensures
        r@ == csv_s(arr@.map_values(|s: String| s@)),
{
    let r = csv_from(arr, 0);
    proof {
        assert(arr@.map_values(|s: String| s@).skip(0) =~= arr@.map_values(|s: String| s@));
    }
    r
}

/// The model of one scope: the enclosing scope's arena index, if any,
/// and the name-to-value mapping.
pub ghost struct EnvModel {
    pub parent: Option<int>,
    pub names: Map<Seq<char>, Val>,
}

/// The mapping an association list stands for; later entries win.
pub open spec fn assoc_view(s: Seq<(String, Object)>) -> Map<Seq<char>, Val>
    decreases s.len(),
{
    if s.len() == 0 {
        Map::empty()
    } else {
        assoc_view(s.drop_last()).insert(s.last().0@, s.last().1@)
    }
}

/// No two entries bind the same name.
pub open spec fn keys_unique(s: Seq<(String, Object)>) -> bool {
    forall|i: int, j: int| 0 <= i < j < s.len() ==> s[i].0@ != s[j].0@
}

proof fn lemma_assoc_contains(s: Seq<(String, Object)>, k: Seq<char>)
    ensures
        assoc_view(s).contains_key(k) <==> exists|i: int| 0 <= i < s.len() && s[i].0@ == k,
    decreases s.len(),
{
    if s.len() > 0 {
        lemma_assoc_contains(s.drop_last(), k);
        if assoc_view(s).contains_key(k) {
            if s.last().0@ != k {
                let i = choose|i: int| 0 <= i < s.drop_last().len() && s.drop_last()[i].0@ == k;
                assert(s[i].0@ == k);
            }
        } else {
            assert(forall|i: int| 0 <= i < s.len() - 1 ==> s.drop_last()[i] == s[i]);
        }
    }
}

proof fn lemma_assoc_at(s: Seq<(String, Object)>, i: int)
    requires
        keys_unique(s),
        0 <= i < s.len(),
    ensures
        assoc_view(s).contains_key(s[i].0@),
        assoc_view(s)[s[i].0@] == s[i].1@,
    decreases s.len(),
{
    lemma_assoc_contains(s, s[i].0@);
    if i < s.len() - 1 {
        assert(s.last().0@ != s[i].0@);
        assert(s.drop_last()[i] == s[i]);
        lemma_assoc_at(s.drop_last(), i);
    }
}

proof fn lemma_assoc_update(s: Seq<(String, Object)>, i: int, p: (String, Object))
    requires
        keys_unique(s),
        0 <= i < s.len(),
        p.0@ == s[i].0@,
    ensures
        assoc_view(s.update(i, p)) == assoc_view(s).insert(p.0@, p.1@),
    decreases s.len(),
{
    let t = s.update(i, p);
    if i == s.len() - 1 {
        assert(t.drop_last() =~= s.drop_last());
        assert(assoc_view(t) =~= assoc_view(s).insert(p.0@, p.1@));
    } else {
        assert(t.drop_last() =~= s.drop_last().update(i, p));
        assert(s.drop_last()[i] == s[i]);
        lemma_assoc_update(s.drop_last(), i, p);
        assert(s.last().0@ != s[i].0@);
        assert(assoc_view(t) =~= assoc_view(s).insert(p.0@, p.1@));
    }
}

/// One scope: a mapping from names to values, plus the arena index of
/// the enclosing scope. The arena itself lives in the `Interpreter`.
#[derive(Debug)]
pub struct Environment {
    pub parent: Option<usize>,
    pub values: Vec<(String, Object)>,
}

impl View for Environment {
    type V = EnvModel;

    open spec fn view(&self) -> EnvModel {
        EnvModel {
            parent: match self.parent {
                Some(p) => Some(p as int),
                None => None,
            },
            names: assoc_view(self.values@),
        }
    }
}

impl Environment {
    /// No binding is listed twice.
    pub open spec fn wf(&self) -> bool {
        keys_unique(self.values@)
    }

    /// The global scope: empty, with no enclosing scope.
    pub fn new() -> (e: Environment)
        ensures
            e@.parent is None,
            e@.names == Map::<Seq<char>, Val>::empty(),
            e.wf(),
    {
        Environment { parent: None, values: Vec::new() }
    }

    /// A fresh scope enclosed by the scope at arena index `parent`.
    pub fn new_enclosing(parent: usize) -> (e: Environment)
        ensures
            e@.parent == Some(parent as int),
            e@.names == Map::<Seq<char>, Val>::empty(),
            e.wf(),
    {
        Environment { parent: Some(parent), values: Vec::new() }
    }

    /// Inserts or overwrites a binding in this scope only.
    pub fn define(&mut self, name: &String, value: Object)
        requires
            old(self).wf(),
        ensures
            final(self).wf(),
            final(self)@.parent == old(self)@.parent,
            final(self)@.names == old(self)@.names.insert(name@, value@),
    {
        let n = self.values.len();
        let ghost s0 = old(self).values@;
        for j in 0..n
            invariant
                n == self.values.len(),
                self.values@ == s0,
                s0 == old(self).values@,
                self.parent == old(self).parent,
                keys_unique(s0),
                forall|t: int| 0 <= t < j ==> s0[t].0@ != name@,
        {
            if self.values[j].0 == *name {
                let p = (name.clone(), value);
                proof {
                    lemma_assoc_update(s0, j as int, p);
                }
                self.values[j] = p;
                return ;
            }
        }
        let p = (name.clone(), value);
        proof {
            assert(s0.push(p).drop_last() =~= s0);
        }
        self.values.push(p);
    }

    /// Looks the name up in this scope only, returning a copy of the
    /// bound value if there is one.
    pub fn find(&self, name: &String) -> (r: Option<Object>)
        requires
            self.wf(),
        ensures
            match r {
                Some(o) => self@.names.contains_key(name@) && o@ == self@.names[name@],
                None => !self@.names.contains_key(name@),
            },
    {
        let n = self.values.len();
        for j in 0..n
            invariant
                n == self.values.len(),
                self.wf(),
                forall|t: int| 0 <= t < j ==> self.values@[t].0@ != name@,
        {
            if self.values[j].0 == *name {
                proof {
                    lemma_assoc_at(self.values@, j as int);
                }
                return Some(self.values[j].1.dup());
            }
        }
        proof {
            lemma_assoc_contains(self.values@, name@);
        }
        None
    }

    /// Overwrites an existing binding in this scope only; reports whether
    /// one was there. Never creates a binding.
    pub fn try_set(&mut self, name: &String, value: Object) -> (found: bool)
        requires
            old(self).wf(),
        ensures
            final(self).wf(),
            final(self)@.parent == old(self)@.parent,
            found == old(self)@.names.contains_key(name@),
            found ==> final(self)@.names == old(self)@.names.insert(name@, value@),
            !found ==> final(self)@ == old(self)@,
    {
        let n = self.values.len();
        let ghost s0 = old(self).values@;
        for j in 0..n
            invariant
                n == self.values.len(),
                self.values@ == s0,
                s0 == old(self).values@,
                self.parent == old(self).parent,
                keys_unique(s0),
                forall|t: int| 0 <= t < j ==> s0[t].0@ != name@,
        {
            if self.values[j].0 == *name {
                let p = (name.clone(), value);
                proof {
                    lemma_assoc_at(s0, j as int);
                    lemma_assoc_update(s0, j as int, p);
                }
                self.values[j] = p;
                return true;
            }
        }
        proof {
            lemma_assoc_contains(s0, name@);
        }
        false
    }
}

} // verus!
