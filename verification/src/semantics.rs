use vstd::prelude::*;

use crate::environment::EnvModel;
use crate::environment::Object;
use crate::environment::Val;
use crate::environment::arity_s;
use crate::environment::callable_s;
use crate::environment::csv_s;
use crate::environment::equal_vals;
use crate::environment::truthy_s;
use crate::expression::Expr;
use crate::numerics::diff_bits;
use crate::numerics::eq_bits;
use crate::numerics::le_bits;
use crate::numerics::lt_bits;
use crate::numerics::neg_bits;
use crate::numerics::prod_bits;
use crate::numerics::quot_bits;
use crate::numerics::sum_bits;
use crate::numerics::text_of_bits;
use crate::statement::Stmt;
use crate::token::Token;
use crate::token::TokenType;

verus! {

/// One reported runtime fault: the token it was detected at and the
/// message handed to the error-reporter collaborator.
pub ghost struct ErrRec {
    pub line: int,
    pub lexeme: Seq<char>,
    pub message: Seq<char>,
}

/// The model of the whole evaluator state: the arena of scopes, the
/// index of the scope that is current, the lines written to the output
/// channel, and the faults reported so far.
pub ghost struct State {
    pub envs: Seq<EnvModel>,
    pub cur: int,
    pub output: Seq<Seq<char>>,
    pub errors: Seq<ErrRec>,
}

/// A value that carries no reference into the scope arena.
pub open spec fn plain_val(v: Val) -> bool {
    !(v is Fun)
}

/// A value is sound for an arena of `n` scopes: a closure's captured
/// scope must exist and its body must be a sound piece of syntax.
pub open spec fn val_ok(v: Val, n: int) -> bool {
    match v {
        Val::Fun { body, env, .. } => 0 <= env < n && stmts_ok(body),
        _ => true,
    }
}

/// Syntax handed over by the parser holds only constant literals.
pub open spec fn expr_ok(e: Expr) -> bool
    decreases e,
{
    match e {
        Expr::Literal { value } => plain_val(value@),
        Expr::Grouping { expression } => expr_ok(*expression),
        Expr::Variable { .. } => true,
        Expr::Assign { value, .. } => expr_ok(*value),
        Expr::Logical { left, right, .. } => expr_ok(*left) && expr_ok(*right),
        Expr::Unary { right, .. } => expr_ok(*right),
        Expr::Binary { left, right, .. } => expr_ok(*left) && expr_ok(*right),
        Expr::Call { callee, arguments, .. } => expr_ok(*callee) && exprs_ok(arguments@),
    }
}

pub open spec fn exprs_ok(es: Seq<Expr>) -> bool
    decreases es,
{
    if es.len() == 0 {
        true
    } else {
        expr_ok(es[0]) && exprs_ok(es.drop_first())
    }
}

pub open spec fn stmt_ok(s: Stmt) -> bool
    decreases s,
{
    match s {
        Stmt::Expression { expression } => expr_ok(expression),
        Stmt::Print { expression } => expr_ok(expression),
        Stmt::Var { initializer, .. } => expr_ok(initializer),
        Stmt::Block { statements } => stmts_ok(statements@),
        Stmt::If { condition, then_branch, else_branch } => expr_ok(condition) && stmt_ok(
            *then_branch,
        ) && match else_branch {
            Some(b) => stmt_ok(*b),
            None => true,
        },
        Stmt::While { condition, body } => expr_ok(condition) && stmt_ok(*body),
        Stmt::Function { body, .. } => stmts_ok(body@),
        Stmt::Return { value, .. } => expr_ok(value),
    }
}

pub open spec fn stmts_ok(ss: Seq<Stmt>) -> bool
    decreases ss,
{
    if ss.len() == 0 {
        true
    } else {
        stmt_ok(ss[0]) && stmts_ok(ss.drop_first())
    }
}

impl State {
    /// Inserts or overwrites a binding in the scope at index `i`.
    pub open spec fn define_at(self, i: int, name: Seq<char>, v: Val) -> State {
        State {
            envs: self.envs.update(
                i,
                EnvModel { parent: self.envs[i].parent, names: self.envs[i].names.insert(name, v) },
            ),
            ..self
        }
    }

    /// Inserts or overwrites a binding in the current scope.
    pub open spec fn define(self, name: Seq<char>, v: Val) -> State {
        self.define_at(self.cur, name, v)
    }

    /// The value bound to `name`, searching the scope at `i` and then
    /// each enclosing scope outward.
    pub open spec fn lookup_in(self, i: int, name: Seq<char>) -> Option<Val>
        decreases i,
    {
        if 0 <= i < self.envs.len() {
            if self.envs[i].names.contains_key(name) {
                Some(self.envs[i].names[name])
            } else {
                match self.envs[i].parent {
                    Some(p) => if 0 <= p < i {
                        self.lookup_in(p, name)
                    } else {
                        None
                    },
                    None => None,
                }
            }
        } else {
            None
        }
    }

    pub open spec fn lookup(self, name: Seq<char>) -> Option<Val> {
        self.lookup_in(self.cur, name)
    }

    /// Overwrites the binding of `name` in the nearest scope that has
    /// one, searching outward from `i`; `None` if no scope does.
    /// Assignment never creates a binding.
    pub open spec fn assign_in(self, i: int, name: Seq<char>, v: Val) -> Option<State>
        decreases i,
    {
        if 0 <= i < self.envs.len() {
            if self.envs[i].names.contains_key(name) {
                Some(self.define_at(i, name, v))
            } else {
                match self.envs[i].parent {
                    Some(p) => if 0 <= p < i {
                        self.assign_in(p, name, v)
                    } else {
                        None
                    },
                    None => None,
                }
            }
        } else {
            None
        }
    }

    pub open spec fn assign(self, name: Seq<char>, v: Val) -> Option<State> {
        self.assign_in(self.cur, name, v)
    }

    /// Appends a fresh empty scope enclosed by the scope at `parent`.
    pub open spec fn push_env(self, parent: int) -> State {
        State {
            envs: self.envs.push(
                EnvModel { parent: Some(parent), names: Map::<Seq<char>, Val>::empty() },
            ),
            ..self
        }
    }

    /// The same state with the scope at `c` as current.
    pub open spec fn with_cur(self, c: int) -> State {
        State { cur: c, ..self }
    }

    /// One line written to the output channel.
    pub open spec fn emit(self, line: Seq<char>) -> State {
        State { output: self.output.push(line), ..self }
    }

    /// One fault reported at the given token.
    pub open spec fn fail(self, t: Token, message: Seq<char>) -> State {
        State {
            errors: self.errors.push(
                ErrRec { line: t.line as int, lexeme: t.lexeme@, message },
            ),
            ..self
        }
    }

    /// The standing shape of the state: the current scope exists, parent
    /// links point strictly downward in the arena (so chains end), and
    /// every stored closure refers to a scope that exists.
    pub open spec fn wf(self) -> bool {
        &&& 0 <= self.cur < self.envs.len()
        &&& forall|i: int|
            0 <= i < self.envs.len() ==> match (#[trigger] self.envs[i]).parent {
                Some(p) => 0 <= p < i,
                None => true,
            }
        &&& forall|i: int, k: Seq<char>|
            0 <= i < self.envs.len() && self.envs[i].names.contains_key(k) ==> val_ok(
                #[trigger] self.envs[i].names[k],
                self.envs.len() as int,
            )
    }
}

/// The views of a sequence of runtime values.
pub open spec fn vals_of(s: Seq<Object>) -> Seq<Val> {
    s.map_values(|o: Object| o@)
}

/// Behaviour of the host-provided primitives: what each native name
/// computes from its arguments. The core checks a builtin's arity and
/// hands over the evaluated arguments; the registry does the rest.
pub trait NativeRegistry: Sized {
    /// The value the native of this name produces for these arguments.
    spec fn native_result(&self, name: Seq<char>, args: Seq<Val>) -> Val;

    /// Runs the native of this name on these arguments.
    fn invoke(&self, name: &String, args: &Vec<Object>) -> (r: Object)
        ensures
            r@ == self.native_result(name@, vals_of(args@)),
    ;
}

/// The registry with no natives: every builtin call yields Nil.
pub struct NoNatives;

impl NativeRegistry for NoNatives {
    open spec fn native_result(&self, name: Seq<char>, args: Seq<Val>) -> Val {
        Val::Nil
    }

    fn invoke(&self, name: &String, args: &Vec<Object>) -> (r: Object) {
        Object::Nil
    }
}

/// The digit character for `n` in 0..10.
pub open spec fn digit_char(n: nat) -> char {
    if n == 0 {
        '0'
    } else if n == 1 {
        '1'
    } else if n == 2 {
        '2'
    } else if n == 3 {
        '3'
    } else if n == 4 {
        '4'
    } else if n == 5 {
        '5'
    } else if n == 6 {
        '6'
    } else if n == 7 {
        '7'
    } else if n == 8 {
        '8'
    } else {
        '9'
    }
}

/// The decimal rendering of a natural number.
pub open spec fn dec_str(n: nat) -> Seq<char>
    decreases n,
{
    if n < 10 {
        seq![digit_char(n)]
    } else {
        dec_str(n / 10).push(digit_char(n % 10))
    }
}

pub open spec fn undefined_var_msg(name: Seq<char>) -> Seq<char> {
    "Undefined variable '"@ + name + "'."@
}

pub open spec fn arity_msg(want: int, got: int) -> Seq<char> {
    "Expected "@ + dec_str(want as nat) + " arguments, but got "@ + dec_str(got as nat) + "."@
}

/// The textual rendering of a value, as written by `print`.
pub open spec fn render_s(v: Val) -> Seq<char> {
    match v {
        Val::Num(n) => text_of_bits(n),
        Val::Bool(b) => if b {
            "true"@
        } else {
            "false"@
        },
        Val::Strv(s) => s,
        Val::Nil => "nil"@,
        Val::Uninit => "unitialized"@,
        Val::Fun { name, params, .. } => "fn "@ + name + "("@ + csv_s(params) + ")"@,
        Val::Builtin(name) => name,
    }
}

/// The outcome of applying an operator to already-evaluated operands.
pub ghost enum OpOut {
    Good(Val),
    Bad(Seq<char>),
}

/// Unary operator semantics: `!` negates truthiness; `-` requires a
/// number and flips its sign; any other token yields Nil.
pub open spec fn apply_unary_s(t: TokenType, v: Val) -> OpOut {
    match t {
        TokenType::Bang => OpOut::Good(Val::Bool(!truthy_s(v))),
        TokenType::Minus => match v {
            Val::Num(n) => OpOut::Good(Val::Num(neg_bits(n))),
            _ => OpOut::Bad("Operand must be a number."@),
        },
        _ => OpOut::Good(Val::Nil),
    }
}

/// Binary operator semantics, dispatching on the concrete runtime types
/// of both operands. Two strings: `+` concatenates, equality compares
/// text, other arithmetic is a type fault. Two numbers: IEEE-754
/// arithmetic and ordering. Any other pairing: arithmetic and ordering
/// are type faults, while equality falls back to the cross-variant rule
/// (never an error, never a coercion).
pub open spec fn apply_binary_s(t: TokenType, l: Val, r: Val) -> OpOut {
    match (l, r) {
        (Val::Strv(a), Val::Strv(b)) => match t {
            TokenType::Plus => OpOut::Good(Val::Strv(a + b)),
            TokenType::Slash | TokenType::Star | TokenType::Minus => OpOut::Bad(
                "Operands must be numbers."@,
            ),
            TokenType::BangEqual => OpOut::Good(Val::Bool(a != b)),
            TokenType::EqualEqual => OpOut::Good(Val::Bool(a == b)),
            _ => OpOut::Good(Val::Nil),
        },
        (Val::Num(a), Val::Num(b)) => match t {
            TokenType::Plus => OpOut::Good(Val::Num(sum_bits(a, b))),
            TokenType::Minus => OpOut::Good(Val::Num(diff_bits(a, b))),
            TokenType::Slash => OpOut::Good(Val::Num(quot_bits(a, b))),
            TokenType::Star => OpOut::Good(Val::Num(prod_bits(a, b))),
            TokenType::Greater => OpOut::Good(Val::Bool(lt_bits(b, a))),
            TokenType::GreaterEqual => OpOut::Good(Val::Bool(le_bits(b, a))),
            TokenType::Less => OpOut::Good(Val::Bool(lt_bits(a, b))),
            TokenType::LessEqual => OpOut::Good(Val::Bool(le_bits(a, b))),
            TokenType::BangEqual => OpOut::Good(Val::Bool(!eq_bits(a, b))),
            TokenType::EqualEqual => OpOut::Good(Val::Bool(eq_bits(a, b))),
            _ => OpOut::Good(Val::Num(0)),
        },
        _ => match t {
            TokenType::Greater
            | TokenType::GreaterEqual
            | TokenType::Less
            | TokenType::LessEqual
            | TokenType::Slash
            | TokenType::Star
            | TokenType::Minus => OpOut::Bad("Operands must be numbers."@),
            TokenType::Plus => OpOut::Bad("Operands must be two numbers or two strings."@),
            TokenType::BangEqual => OpOut::Good(Val::Bool(!equal_vals(l, r))),
            TokenType::EqualEqual => OpOut::Good(Val::Bool(equal_vals(l, r))),
            _ => OpOut::Good(Val::Nil),
        },
    }
}

/// Statement outcome: fall through to the next statement, return from
/// the innermost call with a value, or stop because the step budget ran
/// out.
pub ghost enum Ctl {
    Next,
    Ret(Val),
    Stop,
}

/// Big-step semantics of one expression, with a step budget. Every
/// recursive step spends one unit; an exhausted budget yields `None` and
/// the state reached so far. A runtime fault is not `None`: it is
/// recorded in the state and the expression yields Nil, so evaluation
/// keeps going.
pub open spec fn eval_expr_s<Reg: NativeRegistry>(reg: &Reg, st: State, e: Expr, fuel: nat) -> (
    State,
    Option<Val>,
)
    decreases fuel, 0int,
{
    if fuel == 0 {
        (st, None)
    } else {
        let f = (fuel - 1) as nat;
        match e {
            Expr::Literal { value } => (st, Some(value@)),
            Expr::Grouping { expression } => eval_expr_s(reg, st, *expression, f),
            Expr::Variable { name } => match st.lookup(name.lexeme@) {
                Some(v) => (st, Some(v)),
                None => (st.fail(name, undefined_var_msg(name.lexeme@)), Some(Val::Nil)),
            },
            Expr::Assign { name, value } => {
                let (st1, r) = eval_expr_s(reg, st, *value, f);
                match r {
                    None => (st1, None),
                    Some(v) => match st1.assign(name.lexeme@, v) {
                        Some(st2) => (st2, Some(v)),
                        None => (st1.fail(name, undefined_var_msg(name.lexeme@)), Some(Val::Nil)),
                    },
                }
            },
            Expr::Logical { left, operator, right } => {
                let (st1, r) = eval_expr_s(reg, st, *left, f);
                match r {
                    None => (st1, None),
                    Some(l) => if operator.token_type == TokenType::Or {
                        if truthy_s(l) {
                            (st1, Some(l))
                        } else {
                            eval_expr_s(reg, st1, *right, f)
                        }
                    } else {
                        if !truthy_s(l) {
                            (st1, Some(l))
                        } else {
                            eval_expr_s(reg, st1, *right, f)
                        }
                    },
                }
            },
            Expr::Unary { operator, right } => {
                let (st1, r) = eval_expr_s(reg, st, *right, f);
                match r {
                    None => (st1, None),
                    Some(v) => match apply_unary_s(operator.token_type, v) {
                        OpOut::Good(w) => (st1, Some(w)),
                        OpOut::Bad(m) => (st1.fail(operator, m), Some(Val::Nil)),
                    },
                }
            },
            Expr::Binary { left, operator, right } => {
                let (st1, r1) = eval_expr_s(reg, st, *left, f);
                match r1 {
                    None => (st1, None),
                    Some(l) => {
                        let (st2, r2) = eval_expr_s(reg, st1, *right, f);
                        match r2 {
                            None => (st2, None),
                            Some(r) => match apply_binary_s(operator.token_type, l, r) {
                                OpOut::Good(w) => (st2, Some(w)),
                                OpOut::Bad(m) => (st2.fail(operator, m), Some(Val::Nil)),
                            },
                        }
                    },
                }
            },
            Expr::Call { callee, paren, arguments } => {
                let (st1, r) = eval_expr_s(reg, st, *callee, f);
                match r {
                    None => (st1, None),
                    Some(c) => {
                        let (st2, ra) = eval_args_s(reg, st1, arguments@, f);
                        match ra {
                            None => (st2, None),
                            Some(args) => finish_call_s(reg, st2, paren, c, args, f),
                        }
                    },
                }
            },
        }
    }
}

/// Evaluates argument expressions left to right.
pub open spec fn eval_args_s<Reg: NativeRegistry>(
    reg: &Reg,
    st: State,
    es: Seq<Expr>,
    fuel: nat,
) -> (State, Option<Seq<Val>>)
    decreases fuel, 0int,
{
    if fuel == 0 {
        (st, None)
    } else if es.len() == 0 {
        (st, Some(Seq::empty()))
    } else {
        let f = (fuel - 1) as nat;
        let (st1, r) = eval_expr_s(reg, st, es[0], f);
        match r {
            None => (st1, None),
            Some(v) => {
                let (st2, rest) = eval_args_s(reg, st1, es.drop_first(), f);
                match rest {
                    None => (st2, None),
                    Some(vs) => (st2, Some(seq![v] + vs)),
                }
            },
        }
    }
}

/// The call protocol: the callee must be callable and the argument count
/// must equal its declared arity; either fault is reported and the call
/// expression yields Nil. Otherwise the callable is entered.
pub open spec fn finish_call_s<Reg: NativeRegistry>(
    reg: &Reg,
    st: State,
    paren: Token,
    c: Val,
    args: Seq<Val>,
    fuel: nat,
) -> (State, Option<Val>)
    decreases fuel, 2int,
{
    if !callable_s(c) {
        (st.fail(paren, "Can only call functions and classes."@), Some(Val::Nil))
    } else if args.len() != arity_s(c) {
        (st.fail(paren, arity_msg(arity_s(c), args.len() as int)), Some(Val::Nil))
    } else {
        call_s(reg, st, c, args, fuel)
    }
}

/// Binds parameter names to argument values, positionally, in the scope
/// at index `i`.
pub open spec fn bind_params_s(st: State, i: int, params: Seq<Seq<char>>, args: Seq<Val>) -> State
    decreases params.len(),
{
    if params.len() == 0 {
        st
    } else {
        bind_params_s(st.define_at(i, params[0], args[0]), i, params.drop_first(), args.drop_first())
    }
}

/// Entering a callable. A function runs its body in a fresh scope that
/// encloses the scope captured at its definition site (not the call
/// site), with parameters bound positionally; the call's value is the
/// returned value, or Nil when the body falls through. A builtin is
/// delegated to the registry; whatever it yields, no closure over the
/// arena is accepted from it.
pub open spec fn call_s<Reg: NativeRegistry>(
    reg: &Reg,
    st: State,
    c: Val,
    args: Seq<Val>,
    fuel: nat,
) -> (State, Option<Val>)
    decreases fuel, 1int,
{
    if fuel == 0 {
        (st, None)
    } else {
        let f = (fuel - 1) as nat;
        match c {
            Val::Fun { params, body, env, .. } => {
                let idx = st.envs.len() as int;
                let st1 = bind_params_s(st.push_env(env), idx, params, args);
                let (st2, ctl) = exec_block_s(reg, st1, body, idx, f);
                match ctl {
                    Ctl::Stop => (st2, None),
                    Ctl::Ret(v) => (st2, Some(v)),
                    Ctl::Next => (st2, Some(Val::Nil)),
                }
            },
            Val::Builtin(name) => {
                let v = reg.native_result(name, args);
                (st, Some(if plain_val(v) { v } else { Val::Nil }))
            },
            _ => (st, Some(Val::Nil)),
        }
    }
}

/// Runs statements with the scope at `env` current, then restores the
/// previous current scope — unconditionally, however the block exited.
pub open spec fn exec_block_s<Reg: NativeRegistry>(
    reg: &Reg,
    st: State,
    stmts: Seq<Stmt>,
    env: int,
    fuel: nat,
) -> (State, Ctl)
    decreases fuel, 1int,
{
    let (st2, c) = eval_stmts_s(reg, st.with_cur(env), stmts, fuel);
    (st2.with_cur(st.cur), c)
}

/// Big-step semantics of one statement.
pub open spec fn eval_stmt_s<Reg: NativeRegistry>(reg: &Reg, st: State, s: Stmt, fuel: nat) -> (
    State,
    Ctl,
)
    decreases fuel, 0int,
{
    if fuel == 0 {
        (st, Ctl::Stop)
    } else {
        let f = (fuel - 1) as nat;
        match s {
            Stmt::Expression { expression } => {
                let (st1, r) = eval_expr_s(reg, st, expression, f);
                (st1, if r is Some {
                    Ctl::Next
                } else {
                    Ctl::Stop
                })
            },
            Stmt::Print { expression } => {
                let (st1, r) = eval_expr_s(reg, st, expression, f);
                match r {
                    None => (st1, Ctl::Stop),
                    Some(v) => (st1.emit(render_s(v)), Ctl::Next),
                }
            },
            Stmt::Var { name, initializer } => {
                let (st1, r) = eval_expr_s(reg, st, initializer, f);
                match r {
                    None => (st1, Ctl::Stop),
                    Some(v) => (st1.define(name.lexeme@, v), Ctl::Next),
                }
            },
            Stmt::Block { statements } => {
                let idx = st.envs.len() as int;
                exec_block_s(reg, st.push_env(st.cur), statements@, idx, f)
            },
            Stmt::If { condition, then_branch, else_branch } => {
                let (st1, r) = eval_expr_s(reg, st, condition, f);
                match r {
                    None => (st1, Ctl::Stop),
                    Some(v) => if truthy_s(v) {
                        eval_stmt_s(reg, st1, *then_branch, f)
                    } else {
                        match else_branch {
                            Some(b) => eval_stmt_s(reg, st1, *b, f),
                            None => (st1, Ctl::Next),
                        }
                    },
                }
            },
            Stmt::While { condition, body } => {
                let (st1, r) = eval_expr_s(reg, st, condition, f);
                match r {
                    None => (st1, Ctl::Stop),
                    Some(v) => if truthy_s(v) {
                        let (st2, c) = eval_stmt_s(reg, st1, *body, f);
                        match c {
                            Ctl::Next => eval_stmt_s(reg, st2, s, f),
                            _ => (st2, c),
                        }
                    } else {
                        (st1, Ctl::Next)
                    },
                }
            },
            Stmt::Function { name, params, body } => {
                let v = Val::Fun {
                    name: name.lexeme@,
                    params: params@.map_values(|p: String| p@),
                    body: body@,
                    env: st.cur,
                };
                (st.define(name.lexeme@, v), Ctl::Next)
            },
            Stmt::Return { value, .. } => {
                let (st1, r) = eval_expr_s(reg, st, value, f);
                match r {
                    None => (st1, Ctl::Stop),
                    Some(v) => (st1, Ctl::Ret(v)),
                }
            },
        }
    }
}

/// Runs statements in order; a return or an exhausted budget stops the
/// walk.
pub open spec fn eval_stmts_s<Reg: NativeRegistry>(
    reg: &Reg,
    st: State,
    ss: Seq<Stmt>,
    fuel: nat,
) -> (State, Ctl)
    decreases fuel, 0int,
{
    if fuel == 0 {
        (st, Ctl::Stop)
    } else if ss.len() == 0 {
        (st, Ctl::Next)
    } else {
        let f = (fuel - 1) as nat;
        let (st1, c) = eval_stmt_s(reg, st, ss[0], f);
        match c {
            Ctl::Next => eval_stmts_s(reg, st1, ss.drop_first(), f),
            _ => (st1, c),
        }
    }
}


/// Values each sound for an arena of `n` scopes.
pub open spec fn vals_ok(vs: Seq<Val>, n: int) -> bool {
    forall|k: int| 0 <= k < vs.len() ==> val_ok(#[trigger] vs[k], n)
}

/// What any evaluation step leaves intact of the scopes that existed
/// before it, apart from the one at index `x`: the arena only grows,
/// parent links never change, and no binding appears in or vanishes
/// from any other pre-existing scope. Values bound there may change
/// (assignment), but the set of names may not.
pub open spec fn frame_except(st: State, st1: State, x: int) -> bool {
    &&& st.envs.len() <= st1.envs.len()
    &&& forall|j: int|
        0 <= j < st.envs.len() ==> (#[trigger] st1.envs[j]).parent == st.envs[j].parent
    &&& forall|j: int|
        0 <= j < st.envs.len() && j != x ==> (#[trigger] st1.envs[j]).names.dom()
            == st.envs[j].names.dom()
}

proof fn lemma_frame_trans(st0: State, st1: State, st2: State, x: int)
    requires
        frame_except(st0, st1, x),
        frame_except(st1, st2, x),
    ensures
        frame_except(st0, st2, x),
{
    assert forall|j: int| 0 <= j < st0.envs.len() implies (#[trigger] st2.envs[j]).parent
        == st0.envs[j].parent by {
        assert(st1.envs[j].parent == st0.envs[j].parent);
    }
    assert forall|j: int| 0 <= j < st0.envs.len() && j != x implies (#[trigger] st2.envs[j]).names.dom()
        == st0.envs[j].names.dom() by {
        assert(st1.envs[j].names.dom() == st0.envs[j].names.dom());
    }
}

pub proof fn lemma_define_at_wf(st: State, i: int, name: Seq<char>, v: Val)
    requires
        st.wf(),
        0 <= i < st.envs.len(),
        val_ok(v, st.envs.len() as int),
    ensures
        st.define_at(i, name, v).wf(),
        st.define_at(i, name, v).envs[i].names.dom() == st.envs[i].names.dom().insert(name),
        frame_except(st, st.define_at(i, name, v), i),
{
    let st1 = st.define_at(i, name, v);
    assert forall|j: int, k: Seq<char>|
        0 <= j < st1.envs.len() && st1.envs[j].names.contains_key(k) implies val_ok(
        #[trigger] st1.envs[j].names[k],
        st1.envs.len() as int,
    ) by {
        if j == i && k == name {
        } else {
            assert(st1.envs[j].names[k] == st.envs[j].names[k]);
            assert(val_ok(st.envs[j].names[k], st.envs.len() as int));
        }
    }
    assert(st1.envs[i].names.dom() =~= st.envs[i].names.dom().insert(name));
}

pub proof fn lemma_push_env_wf(st: State, parent: int)
    requires
        st.wf(),
        0 <= parent < st.envs.len(),
    ensures
        st.push_env(parent).wf(),
        frame_except(st, st.push_env(parent), st.cur),
        st.push_env(parent).envs[st.envs.len() as int].names.dom() == Set::<Seq<char>>::empty(),
{
    let st1 = st.push_env(parent);
    let n = st.envs.len() as int;
    assert forall|j: int, k: Seq<char>|
        0 <= j < st1.envs.len() && st1.envs[j].names.contains_key(k) implies val_ok(
        #[trigger] st1.envs[j].names[k],
        st1.envs.len() as int,
    ) by {
        assert(j < n);
        assert(st1.envs[j] == st.envs[j]);
        assert(val_ok(st.envs[j].names[k], n));
    }
}

pub proof fn lemma_lookup_ok(st: State, i: int, name: Seq<char>)
    requires
        st.wf(),
    ensures
        match st.lookup_in(i, name) {
            Some(v) => val_ok(v, st.envs.len() as int),
            None => true,
        },
    decreases i,
{
    if 0 <= i < st.envs.len() {
        if !st.envs[i].names.contains_key(name) {
            match st.envs[i].parent {
                Some(p) => {
                    if 0 <= p < i {
                        lemma_lookup_ok(st, p, name);
                    }
                },
                None => {},
            }
        }
    }
}

pub proof fn lemma_assign_wf(st: State, i: int, name: Seq<char>, v: Val)
    requires
        st.wf(),
        val_ok(v, st.envs.len() as int),
    ensures
        match st.assign_in(i, name, v) {
            Some(st1) => {
                &&& st1.wf()
                &&& st1.cur == st.cur
                &&& st1.envs.len() == st.envs.len()
                &&& st1.output == st.output
                &&& st1.errors == st.errors
                &&& forall|j: int|
                    0 <= j < st.envs.len() ==> (#[trigger] st1.envs[j]).parent == st.envs[j].parent
                        && st1.envs[j].names.dom() == st.envs[j].names.dom()
            },
            None => true,
        },
    decreases i,
{
    if 0 <= i < st.envs.len() {
        if st.envs[i].names.contains_key(name) {
            lemma_define_at_wf(st, i, name, v);
            let st1 = st.define_at(i, name, v);
            assert(st1.envs[i].names.dom() =~= st.envs[i].names.dom());
        } else {
            match st.envs[i].parent {
                Some(p) => {
                    if 0 <= p < i {
                        lemma_assign_wf(st, p, name, v);
                    }
                },
                None => {},
            }
        }
    }
}

pub proof fn lemma_bind_params_wf(st: State, i: int, params: Seq<Seq<char>>, args: Seq<Val>)
    requires
        st.wf(),
        0 <= i < st.envs.len(),
        args.len() == params.len(),
        vals_ok(args, st.envs.len() as int),
    ensures
        ({
            let st1 = bind_params_s(st, i, params, args);
            &&& st1.wf()
            &&& st1.cur == st.cur
            &&& st1.envs.len() == st.envs.len()
            &&& st1.output == st.output
            &&& st1.errors == st.errors
            &&& forall|j: int|
                0 <= j < st.envs.len() ==> (#[trigger] st1.envs[j]).parent == st.envs[j].parent
            &&& forall|j: int|
                0 <= j < st.envs.len() && j != i ==> (#[trigger] st1.envs[j]).names.dom()
                    == st.envs[j].names.dom()
        }),
    decreases params.len(),
{
    if params.len() > 0 {
        assert(val_ok(args[0], st.envs.len() as int));
        lemma_define_at_wf(st, i, params[0], args[0]);
        let st2 = st.define_at(i, params[0], args[0]);
        assert(vals_ok(args.drop_first(), st2.envs.len() as int)) by {
            assert forall|k: int| 0 <= k < args.drop_first().len() implies val_ok(
                #[trigger] args.drop_first()[k],
                st2.envs.len() as int,
            ) by {
                assert(args.drop_first()[k] == args[k + 1]);
                assert(val_ok(args[k + 1], st.envs.len() as int));
            }
        }
        lemma_bind_params_wf(st2, i, params.drop_first(), args.drop_first());
    }
}

/// The structural guarantees of expression evaluation: well-formedness
/// of the state is preserved, the current scope stays current, scopes
/// that existed keep their parents and (apart from the current one)
/// their sets of names, and any produced value is sound for the arena.
pub proof fn lemma_eval_expr<Reg: NativeRegistry>(reg: &Reg, st: State, e: Expr, fuel: nat)
    requires
        st.wf(),
        expr_ok(e),
    ensures
        ({
            let (st1, r) = eval_expr_s(reg, st, e, fuel);
            &&& st1.wf()
            &&& st1.cur == st.cur
            &&& frame_except(st, st1, st.cur)
            &&& match r {
                Some(v) => val_ok(v, st1.envs.len() as int),
                None => true,
            }
        }),
    decreases fuel, 0int,
{
    if fuel > 0 {
        let f = (fuel - 1) as nat;
        match e {
            Expr::Literal { value } => {},
            Expr::Grouping { expression } => {
                lemma_eval_expr(reg, st, *expression, f);
            },
            Expr::Variable { name } => {
                lemma_lookup_ok(st, st.cur, name.lexeme@);
            },
            Expr::Assign { name, value } => {
                lemma_eval_expr(reg, st, *value, f);
                let (st1, r) = eval_expr_s(reg, st, *value, f);
                match r {
                    None => {},
                    Some(v) => {
                        lemma_assign_wf(st1, st1.cur, name.lexeme@, v);
                        match st1.assign(name.lexeme@, v) {
                            Some(st2) => {
                                lemma_frame_trans(st, st1, st2, st.cur);
                            },
                            None => {},
                        }
                    },
                }
            },
            Expr::Logical { left, operator, right } => {
                lemma_eval_expr(reg, st, *left, f);
                let (st1, r) = eval_expr_s(reg, st, *left, f);
                match r {
                    None => {},
                    Some(l) => {
                        lemma_eval_expr(reg, st1, *right, f);
                        let (st2, r2) = eval_expr_s(reg, st1, *right, f);
                        lemma_frame_trans(st, st1, st2, st.cur);
                    },
                }
            },
            Expr::Unary { operator, right } => {
                lemma_eval_expr(reg, st, *right, f);
            },
            Expr::Binary { left, operator, right } => {
                lemma_eval_expr(reg, st, *left, f);
                let (st1, r1) = eval_expr_s(reg, st, *left, f);
                match r1 {
                    None => {},
                    Some(l) => {
                        lemma_eval_expr(reg, st1, *right, f);
                        let (st2, r2) = eval_expr_s(reg, st1, *right, f);
                        lemma_frame_trans(st, st1, st2, st.cur);
                    },
                }
            },
            Expr::Call { callee, paren, arguments } => {
                lemma_eval_expr(reg, st, *callee, f);
                let (st1, r) = eval_expr_s(reg, st, *callee, f);
                match r {
                    None => {},
                    Some(c) => {
                        lemma_eval_args(reg, st1, arguments@, f);
                        let (st2, ra) = eval_args_s(reg, st1, arguments@, f);
                        lemma_frame_trans(st, st1, st2, st.cur);
                        match ra {
                            None => {},
                            Some(args) => {
                                assert(val_ok(c, st2.envs.len() as int));
                                lemma_finish_call(reg, st2, paren, c, args, f);
                                let (st3, r3) = finish_call_s(reg, st2, paren, c, args, f);
                                lemma_frame_trans(st, st2, st3, st.cur);
                            },
                        }
                    },
                }
            },
        }
    }
}

pub proof fn lemma_eval_args<Reg: NativeRegistry>(reg: &Reg, st: State, es: Seq<Expr>, fuel: nat)
    requires
        st.wf(),
        exprs_ok(es),
    ensures
        ({
            let (st1, r) = eval_args_s(reg, st, es, fuel);
            &&& st1.wf()
            &&& st1.cur == st.cur
            &&& frame_except(st, st1, st.cur)
            &&& match r {
                Some(vs) => vs.len() == es.len() && vals_ok(vs, st1.envs.len() as int),
                None => true,
            }
        }),
    decreases fuel, 0int,
{
    if fuel > 0 && es.len() > 0 {
        let f = (fuel - 1) as nat;
        lemma_eval_expr(reg, st, es[0], f);
        let (st1, r) = eval_expr_s(reg, st, es[0], f);
        match r {
            None => {},
            Some(v) => {
                lemma_eval_args(reg, st1, es.drop_first(), f);
                let (st2, rest) = eval_args_s(reg, st1, es.drop_first(), f);
                lemma_frame_trans(st, st1, st2, st.cur);
                match rest {
                    None => {},
                    Some(vs) => {
                        assert forall|k: int| 0 <= k < (seq![v] + vs).len() implies val_ok(
                            #[trigger] (seq![v] + vs)[k],
                            st2.envs.len() as int,
                        ) by {
                            if k == 0 {
                                assert((seq![v] + vs)[0] == v);
                            } else {
                                assert((seq![v] + vs)[k] == vs[k - 1]);
                            }
                        }
                    },
                }
            },
        }
    }
}

pub proof fn lemma_finish_call<Reg: NativeRegistry>(
    reg: &Reg,
    st: State,
    paren: Token,
    c: Val,
    args: Seq<Val>,
    fuel: nat,
)
    requires
        st.wf(),
        val_ok(c, st.envs.len() as int),
        vals_ok(args, st.envs.len() as int),
    ensures
        ({
            let (st1, r) = finish_call_s(reg, st, paren, c, args, fuel);
            &&& st1.wf()
            &&& st1.cur == st.cur
            &&& frame_except(st, st1, st.cur)
            &&& match r {
                Some(v) => val_ok(v, st1.envs.len() as int),
                None => true,
            }
        }),
    decreases fuel, 2int,
{
    if callable_s(c) && args.len() == arity_s(c) {
        lemma_call(reg, st, c, args, fuel);
    }
}

pub proof fn lemma_call<Reg: NativeRegistry>(reg: &Reg, st: State, c: Val, args: Seq<Val>, fuel: nat)
    requires
        st.wf(),
        val_ok(c, st.envs.len() as int),
        vals_ok(args, st.envs.len() as int),
        args.len() == arity_s(c),
    ensures
        ({
            let (st1, r) = call_s(reg, st, c, args, fuel);
            &&& st1.wf()
            &&& st1.cur == st.cur
            &&& frame_except(st, st1, st.cur)
            &&& match r {
                Some(v) => val_ok(v, st1.envs.len() as int),
                None => true,
            }
        }),
    decreases fuel, 1int,
{
    if fuel > 0 {
        let f = (fuel - 1) as nat;
        match c {
            Val::Fun { params, body, env, .. } => {
                let idx = st.envs.len() as int;
                lemma_push_env_wf(st, env);
                let stp = st.push_env(env);
                assert(vals_ok(args, stp.envs.len() as int)) by {
                    assert forall|k: int| 0 <= k < args.len() implies val_ok(
                        #[trigger] args[k],
                        stp.envs.len() as int,
                    ) by {
                        assert(val_ok(args[k], st.envs.len() as int));
                    }
                }
                lemma_bind_params_wf(stp, idx, params, args);
                let st1 = bind_params_s(stp, idx, params, args);
                lemma_exec_block(reg, st1, body, idx, f);
                let (st2, ctl) = exec_block_s(reg, st1, body, idx, f);
                assert(frame_except(st, st2, st.cur)) by {
                    assert forall|j: int| 0 <= j < st.envs.len() implies (#[trigger] st2.envs[j]).parent
                        == st.envs[j].parent by {
                        assert(st1.envs[j].parent == stp.envs[j].parent);
                        assert(st2.envs[j].parent == st1.envs[j].parent);
                    }
                    assert forall|j: int| 0 <= j < st.envs.len() && j != st.cur implies (
                    #[trigger] st2.envs[j]).names.dom() == st.envs[j].names.dom() by {
                        assert(st1.envs[j].names.dom() == stp.envs[j].names.dom());
                        assert(st2.envs[j].names.dom() == st1.envs[j].names.dom());
                    }
                }
            },
            Val::Builtin(name) => {},
            _ => {},
        }
    }
}

pub proof fn lemma_exec_block<Reg: NativeRegistry>(
    reg: &Reg,
    st: State,
    stmts: Seq<Stmt>,
    env: int,
    fuel: nat,
)
    requires
        st.wf(),
        stmts_ok(stmts),
        0 <= env < st.envs.len(),
    ensures
        ({
            let (st1, c) = exec_block_s(reg, st, stmts, env, fuel);
            &&& st1.wf()
            &&& st1.cur == st.cur
            &&& frame_except(st, st1, env)
            &&& match c {
                Ctl::Ret(v) => val_ok(v, st1.envs.len() as int),
                _ => true,
            }
        }),
    decreases fuel, 1int,
{
    let sti = st.with_cur(env);
    lemma_eval_stmts(reg, sti, stmts, fuel);
}

pub proof fn lemma_eval_stmt<Reg: NativeRegistry>(reg: &Reg, st: State, s: Stmt, fuel: nat)
    requires
        st.wf(),
        stmt_ok(s),
    ensures
        ({
            let (st1, c) = eval_stmt_s(reg, st, s, fuel);
            &&& st1.wf()
            &&& st1.cur == st.cur
            &&& frame_except(st, st1, st.cur)
            &&& match c {
                Ctl::Ret(v) => val_ok(v, st1.envs.len() as int),
                _ => true,
            }
        }),
    decreases fuel, 0int,
{
    if fuel > 0 {
        let f = (fuel - 1) as nat;
        match s {
            Stmt::Expression { expression } => {
                lemma_eval_expr(reg, st, expression, f);
            },
            Stmt::Print { expression } => {
                lemma_eval_expr(reg, st, expression, f);
            },
            Stmt::Var { name, initializer } => {
                lemma_eval_expr(reg, st, initializer, f);
                let (st1, r) = eval_expr_s(reg, st, initializer, f);
                match r {
                    None => {},
                    Some(v) => {
                        lemma_define_at_wf(st1, st1.cur, name.lexeme@, v);
                        lemma_frame_trans(st, st1, st1.define(name.lexeme@, v), st.cur);
                    },
                }
            },
            Stmt::Block { statements } => {
                let idx = st.envs.len() as int;
                lemma_push_env_wf(st, st.cur);
                let stp = st.push_env(st.cur);
                lemma_exec_block(reg, stp, statements@, idx, f);
                let (st1, c) = exec_block_s(reg, stp, statements@, idx, f);
                assert(frame_except(st, st1, st.cur)) by {
                    assert forall|j: int| 0 <= j < st.envs.len() implies (#[trigger] st1.envs[j]).parent
                        == st.envs[j].parent by {
                        assert(st1.envs[j].parent == stp.envs[j].parent);
                    }
                    assert forall|j: int| 0 <= j < st.envs.len() && j != st.cur implies (
                    #[trigger] st1.envs[j]).names.dom() == st.envs[j].names.dom() by {
                        assert(st1.envs[j].names.dom() == stp.envs[j].names.dom());
                    }
                }
            },
            Stmt::If { condition, then_branch, else_branch } => {
                lemma_eval_expr(reg, st, condition, f);
                let (st1, r) = eval_expr_s(reg, st, condition, f);
                match r {
                    None => {},
                    Some(v) => {
                        if truthy_s(v) {
                            lemma_eval_stmt(reg, st1, *then_branch, f);
                            let (st2, c) = eval_stmt_s(reg, st1, *then_branch, f);
                            lemma_frame_trans(st, st1, st2, st.cur);
                        } else {
                            match else_branch {
                                Some(b) => {
                                    lemma_eval_stmt(reg, st1, *b, f);
                                    let (st2, c) = eval_stmt_s(reg, st1, *b, f);
                                    lemma_frame_trans(st, st1, st2, st.cur);
                                },
                                None => {},
                            }
                        }
                    },
                }
            },
            Stmt::While { condition, body } => {
                lemma_eval_expr(reg, st, condition, f);
                let (st1, r) = eval_expr_s(reg, st, condition, f);
                match r {
                    None => {},
                    Some(v) => {
                        if truthy_s(v) {
                            lemma_eval_stmt(reg, st1, *body, f);
                            let (st2, c) = eval_stmt_s(reg, st1, *body, f);
                            lemma_frame_trans(st, st1, st2, st.cur);
                            match c {
                                Ctl::Next => {
                                    lemma_eval_stmt(reg, st2, s, f);
                                    let (st3, c3) = eval_stmt_s(reg, st2, s, f);
                                    lemma_frame_trans(st, st2, st3, st.cur);
                                },
                                _ => {},
                            }
                        }
                    },
                }
            },
            Stmt::Function { name, params, body } => {
                let v = Val::Fun {
                    name: name.lexeme@,
                    params: params@.map_values(|p: String| p@),
                    body: body@,
                    env: st.cur,
                };
                assert(val_ok(v, st.envs.len() as int));
                lemma_define_at_wf(st, st.cur, name.lexeme@, v);
            },
            Stmt::Return { value, .. } => {
                lemma_eval_expr(reg, st, value, f);
            },
        }
    }
}

pub proof fn lemma_eval_stmts<Reg: NativeRegistry>(reg: &Reg, st: State, ss: Seq<Stmt>, fuel: nat)
    requires
        st.wf(),
        stmts_ok(ss),
    ensures
        ({
            let (st1, c) = eval_stmts_s(reg, st, ss, fuel);
            &&& st1.wf()
            &&& st1.cur == st.cur
            &&& frame_except(st, st1, st.cur)
            &&& match c {
                Ctl::Ret(v) => val_ok(v, st1.envs.len() as int),
                _ => true,
            }
        }),
    decreases fuel, 0int,
{
    if fuel > 0 && ss.len() > 0 {
        let f = (fuel - 1) as nat;
        lemma_eval_stmt(reg, st, ss[0], f);
        let (st1, c) = eval_stmt_s(reg, st, ss[0], f);
        match c {
            Ctl::Next => {
                lemma_eval_stmts(reg, st1, ss.drop_first(), f);
                let (st2, c2) = eval_stmts_s(reg, st1, ss.drop_first(), f);
                lemma_frame_trans(st, st1, st2, st.cur);
            },
            _ => {},
        }
    }
}

} // verus!
