use vstd::prelude::*;
use vstd::string::StringExecFns;

use crate::environment::Environment;
use crate::environment::Object;
use crate::environment::Val;
use crate::environment::arity_s;
use crate::environment::callable_s;
use crate::environment::csv_str;
use crate::environment::rc_dup;
use crate::expression::Expr;
use crate::numerics::num_add;
use crate::numerics::num_div;
use crate::numerics::num_eq;
use crate::numerics::num_le;
use crate::numerics::num_lt;
use crate::numerics::num_mul;
use crate::numerics::num_neg;
use crate::numerics::num_render;
use crate::numerics::num_sub;
use crate::semantics::Ctl;
use crate::semantics::ErrRec;
use crate::semantics::NativeRegistry;
use crate::semantics::OpOut;
use crate::semantics::State;
use crate::semantics::apply_binary_s;
use crate::semantics::apply_unary_s;
use crate::semantics::arity_msg;
use crate::semantics::bind_params_s;
use crate::semantics::call_s;
use crate::semantics::dec_str;
use crate::semantics::digit_char;
use crate::semantics::eval_args_s;
use crate::semantics::eval_expr_s;
use crate::semantics::eval_stmt_s;
use crate::semantics::eval_stmts_s;
use crate::semantics::exec_block_s;
use crate::semantics::expr_ok;
use crate::semantics::exprs_ok;
use crate::semantics::finish_call_s;
use crate::semantics::lemma_assign_wf;
use crate::semantics::lemma_define_at_wf;
use crate::semantics::lemma_eval_args;
use crate::semantics::lemma_eval_expr;
use crate::semantics::lemma_eval_stmts;
use crate::semantics::lemma_push_env_wf;
use crate::semantics::render_s;
use crate::semantics::stmt_ok;
use crate::semantics::stmts_ok;
use crate::semantics::undefined_var_msg;
use crate::semantics::val_ok;
use crate::semantics::vals_of;
use crate::semantics::vals_ok;
use crate::statement::Stmt;
use crate::token::Token;
use crate::token::TokenType;

verus! {

/// A runtime fault, as handed to the error-reporter collaborator: the
/// token it was detected at and a message.
#[derive(Debug)]
pub struct RuntimeError {
    pub line: u64,
    pub lexeme: String,
    pub message: String,
}

impl View for RuntimeError {
    type V = ErrRec;

    open spec fn view(&self) -> ErrRec {
        ErrRec { line: self.line as int, lexeme: self.lexeme@, message: self.message@ }
    }
}

/// The outcome of running a statement: fall through, return from the
/// innermost call carrying a value, or stop with the step budget spent.
#[derive(Debug)]
pub enum Control {
    Normal,
    Return(Object),
    Stopped,
}

impl View for Control {
    type V = Ctl;

    open spec fn view(&self) -> Ctl {
        match self {
            Control::Normal => Ctl::Next,
            Control::Return(o) => Ctl::Ret(o@),
            Control::Stopped => Ctl::Stop,
        }
    }
}

pub open spec fn opt_vals(r: Option<Object>) -> Option<Val> {
    match r {
        Some(o) => Some(o@),
        None => None,
    }
}

/// The evaluator: the arena of scopes, the index of the scope currently
/// in effect, the index of the global scope, and the observable effects
/// produced so far (output lines, reported faults).
#[derive(Debug)]
pub struct Interpreter {
    pub envs: Vec<Environment>,
    pub environment: usize,
    pub globals: usize,
    pub output: Vec<String>,
    pub errors: Vec<RuntimeError>,
}

impl View for Interpreter {
    type V = State;

    open spec fn view(&self) -> State {
        State {
            envs: self.envs@.map_values(|e: Environment| e@),
            cur: self.environment as int,
            output: self.output@.map_values(|s: String| s@),
            errors: self.errors@.map_values(|e: RuntimeError| e@),
        }
    }
}

impl Interpreter {
    /// The modelled state is well-formed and each scope's association
    /// list binds every name at most once.
    pub open spec fn wf(&self) -> bool {
        &&& self@.wf()
        &&& forall|i: int| 0 <= i < self.envs@.len() ==> (#[trigger] self.envs@[i]).wf()
    }

    /// A fresh evaluator: one empty global scope, which is also the
    /// current scope; nothing written, nothing reported.
    pub fn new() -> (it: Interpreter)
        ensures
            it.wf(),
            it@.envs.len() == 1,
            it@.cur == 0,
            it.globals == 0,
            it@.envs[0].parent is None,
            it@.envs[0].names == Map::<Seq<char>, Val>::empty(),
            it@.output == Seq::<Seq<char>>::empty(),
            it@.errors == Seq::<ErrRec>::empty(),
    {
        let mut envs: Vec<Environment> = Vec::new();
        envs.push(Environment::new());
        let it = Interpreter { envs, environment: 0, globals: 0, output: Vec::new(), errors: Vec::new() };
        proof {
            assert(it@.envs =~= seq![it.envs@[0]@]);
            assert(it@.output =~= Seq::<Seq<char>>::empty());
            assert(it@.errors =~= Seq::<ErrRec>::empty());
        }
        it
    }

    /// Looks `name` up from the scope at `i` outward along the parent
    /// chain, returning a copy of the nearest binding.
    fn get_var(&self, i: usize, name: &String) -> (r: Option<Object>)
        requires
            self.wf(),
            i < self.envs.len(),
        ensures
            opt_vals(r) == self@.lookup_in(i as int, name@),
        decreases i,
    {
        let e = &self.envs[i];
        assert(e@ == self@.envs[i as int]);
        match e.find(name) {
            Some(o) => Some(o),
            None => {
                match e.parent {
                    Some(p) => {
                        assert(self@.envs[i as int].parent == Some(p as int));
                        assert(0 <= p < i);
                        self.get_var(p, name)
                    },
                    None => None,
                }
            },
        }
    }

    /// Overwrites the nearest binding of `name` from the scope at `i`
    /// outward; reports whether any scope bound it. Never creates a
    /// binding.
    fn assign_var(&mut self, i: usize, name: &String, value: Object) -> (found: bool)
        requires
            old(self).wf(),
            i < old(self).envs.len(),
            val_ok(value@, old(self)@.envs.len() as int),
        ensures
            final(self).wf(),
            match old(self)@.assign_in(i as int, name@, value@) {
                Some(st) => found && final(self)@ == st,
                None => !found && final(self)@ == old(self)@,
            },
        decreases i,
    {
        proof {
            lemma_assign_wf(old(self)@, i as int, name@, value@);
        }
        let ghost st0 = self@;
        let e = &mut self.envs[i];
        let found = e.try_set(name, value.dup());
        proof {
            assert(self.envs@ == old(self).envs@.update(i as int, *e));
            if found {
                assert(self@.envs =~= st0.define_at(i as int, name@, value@).envs);
                assert(self@ == st0.define_at(i as int, name@, value@));
            } else {
                assert(self@.envs =~= st0.envs);
                assert(self@ == st0);
            }
        }
        if found {
            true
        } else {
            match self.envs[i].parent {
                Some(p) => {
                    assert(self@.envs[i as int].parent == Some(p as int));
                    assert(0 <= p < i);
                    self.assign_var(p, name, value)
                },
                None => false,
            }
        }
    }

    /// Inserts or overwrites a binding in the scope at index `i`.
    fn define_in(&mut self, i: usize, name: &String, value: Object)
        requires
            old(self).wf(),
            i < old(self).envs.len(),
            val_ok(value@, old(self)@.envs.len() as int),
        ensures
            final(self).wf(),
            final(self)@ == old(self)@.define_at(i as int, name@, value@),
    {
        proof {
            lemma_define_at_wf(old(self)@, i as int, name@, value@);
        }
        let ghost st0 = self@;
        let e = &mut self.envs[i];
        e.define(name, value);
        proof {
            assert(self.envs@ == old(self).envs@.update(i as int, *e));
            assert(self@.envs =~= st0.define_at(i as int, name@, value@).envs);
            assert(self@ == st0.define_at(i as int, name@, value@));
        }
    }

    /// Inserts or overwrites a binding in the current scope. This is
    /// also the builtin-registration surface: the host inserts a
    /// `Builtin` value into the global scope before execution begins.
    pub fn define_var(&mut self, name: &String, value: Object)
        requires
            old(self).wf(),
            val_ok(value@, old(self)@.envs.len() as int),
        ensures
            final(self).wf(),
            final(self)@ == old(self)@.define(name@, value@),
    {
        let i = self.environment;
        self.define_in(i, name, value);
    }

    /// Appends a fresh scope enclosed by the scope at `parent` and
    /// returns its index.
    fn begin_scope(&mut self, parent: usize) -> (idx: usize)
        requires
            old(self).wf(),
            parent < old(self).envs.len(),
        ensures
            final(self).wf(),
            final(self)@ == old(self)@.push_env(parent as int),
            idx == old(self).envs.len(),
            final(self).envs.len() == old(self).envs.len() + 1,
    {
        proof {
            lemma_push_env_wf(old(self)@, parent as int);
        }
        let idx = self.envs.len();
        self.envs.push(Environment::new_enclosing(parent));
        proof {
            assert(self@.envs =~= old(self)@.push_env(parent as int).envs);
            assert(self@ == old(self)@.push_env(parent as int));
        }
        idx
    }

    /// Makes the scope at `c` current.
    fn set_current(&mut self, c: usize)
        ensures
            final(self)@ == old(self)@.with_cur(c as int),
            final(self).envs == old(self).envs,
            final(self).environment == c,
    {
        self.environment = c;
    }

    /// Writes one line to the output channel.
    fn emit_line(&mut self, line: String)
        ensures
            final(self)@ == old(self)@.emit(line@),
            final(self).envs == old(self).envs,
            final(self).environment == old(self).environment,
    {
        let ghost st0 = self@;
        self.output.push(line);
        proof {
            assert(self@.output =~= st0.emit(line@).output);
            assert(self@ == st0.emit(line@));
        }
    }

    /// Reports a runtime fault at the given token and yields the Nil
    /// placeholder with which evaluation continues.
    fn runtime_error(&mut self, token: &Token, message: String) -> (r: Object)
        ensures
            final(self)@ == old(self)@.fail(*token, message@),
            final(self).envs == old(self).envs,
            final(self).environment == old(self).environment,
            r == Object::Nil,
    {
        let ghost st0 = self@;
        self.errors.push(
            RuntimeError { line: token.line, lexeme: token.lexeme.clone(), message },
        );
        proof {
            assert(self@.errors =~= st0.fail(*token, message@).errors);
            assert(self@ == st0.fail(*token, message@));
        }
        Object::Nil
    }
}

/// The decimal digit character for `d`.
fn digit_str(d: u64) -> (r: &'static str)
    requires
        d < 10,
    ensures
        r@ == seq![digit_char(d as nat)],
{
    let r: &'static str = if d == 0 {
        "0"
    } else if d == 1 {
        "1"
    } else if d == 2 {
        "2"
    } else if d == 3 {
        "3"
    } else if d == 4 {
        "4"
    } else if d == 5 {
        "5"
    } else if d == 6 {
        "6"
    } else if d == 7 {
        "7"
    } else if d == 8 {
        "8"
    } else {
        "9"
    };
    proof {
        reveal_strlit("0");
        reveal_strlit("1");
        reveal_strlit("2");
        reveal_strlit("3");
        reveal_strlit("4");
        reveal_strlit("5");
        reveal_strlit("6");
        reveal_strlit("7");
        reveal_strlit("8");
        reveal_strlit("9");
        assert(r@ =~= seq![digit_char(d as nat)]);
    }
    r
}

/// The decimal rendering of `n`.
pub fn u64_to_string(n: u64) -> (r: String)
    ensures
        r@ == dec_str(n as nat),
    decreases n,
{
    if n < 10 {
        let r = String::from_str(digit_str(n));
        r
    } else {
        let prefix = u64_to_string(n / 10);
        let r = prefix.concat(digit_str(n % 10));
        proof {
            assert((n / 10) as nat == n as nat / 10);
            assert((n % 10) as nat == n as nat % 10);
            assert(dec_str(n as nat / 10).push(digit_char(n as nat % 10)) =~= dec_str(
                n as nat / 10,
            ) + seq![digit_char(n as nat % 10)]);
        }
        r
    }
}

/// The message reported on an arity mismatch.
fn arity_error_message(want: usize, got: usize) -> (m: String)
    ensures
        m@ == arity_msg(want as int, got as int),
{
    String::from_str("Expected ").concat(u64_to_string(want as u64).as_str()).concat(
        " arguments, but got ",
    ).concat(u64_to_string(got as u64).as_str()).concat(".")
}

/// The message reported when a name has no binding in any scope.
fn undefined_error_message(name: &String) -> (m: String)
    ensures
        m@ == undefined_var_msg(name@),
{
    String::from_str("Undefined variable '").concat(name.as_str()).concat("'.")
}

/// The textual rendering of a value, as `print` writes it.
pub fn render_object(v: &Object) -> (r: String)
    ensures
        r@ == render_s(v@),
{
    match v {
        Object::Number(n) => num_render(*n),
        Object::Boolean(b) => if *b {
            String::from_str("true")
        } else {
            String::from_str("false")
        },
        Object::Str(s) => s.clone(),
        Object::Nil => String::from_str("nil"),
        Object::Unitialized => String::from_str("unitialized"),
        Object::Function { name, params, .. } => String::from_str("fn ").concat(
            name.as_str(),
        ).concat("(").concat(csv_str(params).as_str()).concat(")"),
        Object::Builtin(name) => name.clone(),
    }
}

/// Applies a unary operator to an evaluated operand; a type fault comes
/// back as the message to report.
fn apply_unary(operator: &Token, v: Object) -> (r: Result<Object, String>)
    ensures
        match apply_unary_s(operator.token_type, v@) {
            OpOut::Good(w) => r matches Ok(o) && o@ == w,
            OpOut::Bad(m) => r matches Err(s) && s@ == m,
        },
{
    match operator.token_type {
        crate::token::TokenType::Bang => Ok(Object::Boolean(!v.is_thuthy())),
        crate::token::TokenType::Minus => match v {
            Object::Number(num) => Ok(Object::Number(num_neg(num))),
            _ => Err(String::from_str("Operand must be a number.")),
        },
        _ => Ok(Object::Nil),
    }
}

/// Applies a binary operator to two evaluated operands, dispatching on
/// the concrete runtime types of both; a type fault comes back as the
/// message to report.
fn apply_binary(operator: &Token, l: Object, r: Object) -> (res: Result<Object, String>)
    ensures
        match apply_binary_s(operator.token_type, l@, r@) {
            OpOut::Good(w) => res matches Ok(o) && o@ == w,
            OpOut::Bad(m) => res matches Err(s) && s@ == m,
        },
{
    match (l, r) {
        (Object::Str(str1), Object::Str(str2)) => {
            match operator.token_type {
                crate::token::TokenType::Plus => Ok(Object::Str(str1.concat(str2.as_str()))),
                crate::token::TokenType::Slash
                | crate::token::TokenType::Star
                | crate::token::TokenType::Minus => Err(
                    String::from_str("Operands must be numbers."),
                ),
                crate::token::TokenType::BangEqual => Ok(Object::Boolean(!(str1 == str2))),
                crate::token::TokenType::EqualEqual => Ok(Object::Boolean(str1 == str2)),
                _ => Ok(Object::Nil),
            }
        },
        (Object::Number(num1), Object::Number(num2)) => {
            match operator.token_type {
                crate::token::TokenType::Plus => Ok(Object::Number(num_add(num1, num2))),
                crate::token::TokenType::Minus => Ok(Object::Number(num_sub(num1, num2))),
                crate::token::TokenType::Slash => Ok(Object::Number(num_div(num1, num2))),
                crate::token::TokenType::Star => Ok(Object::Number(num_mul(num1, num2))),
                crate::token::TokenType::Greater => Ok(Object::Boolean(num_lt(num2, num1))),
                crate::token::TokenType::GreaterEqual => Ok(Object::Boolean(num_le(num2, num1))),
                crate::token::TokenType::Less => Ok(Object::Boolean(num_lt(num1, num2))),
                crate::token::TokenType::LessEqual => Ok(Object::Boolean(num_le(num1, num2))),
                crate::token::TokenType::BangEqual => Ok(Object::Boolean(!num_eq(num1, num2))),
                crate::token::TokenType::EqualEqual => Ok(Object::Boolean(num_eq(num1, num2))),
                _ => Ok(Object::Number(0)),
            }
        },
        (val1, val2) => {
            match operator.token_type {
                crate::token::TokenType::Greater
                | crate::token::TokenType::GreaterEqual
                | crate::token::TokenType::Less
                | crate::token::TokenType::LessEqual
                | crate::token::TokenType::Slash
                | crate::token::TokenType::Star
                | crate::token::TokenType::Minus => Err(
                    String::from_str("Operands must be numbers."),
                ),
                crate::token::TokenType::Plus => Err(
                    String::from_str("Operands must be two numbers or two strings."),
                ),
                crate::token::TokenType::BangEqual => Ok(Object::Boolean(!val1.is_equal(val2))),
                crate::token::TokenType::EqualEqual => Ok(Object::Boolean(val1.is_equal(val2))),
                _ => Ok(Object::Nil),
            }
        },
    }
}


impl Interpreter {
    /// Evaluates one expression, spending at most `fuel` steps; `None`
    /// means the budget ran out. The state moves exactly as the
    /// semantics `eval_expr_s` says, and the result is its value.
    #[verifier::rlimit(60)]
    pub fn evaluate_expr<Reg: NativeRegistry>(
        &mut self,
        expr: &Expr,
        reg: &Reg,
        fuel: u64,
    ) -> (r: Option<Object>)
        requires
            old(self).wf(),
            expr_ok(*expr),
        ensures
            final(self).wf(),
            ({
                let (st, rv) = eval_expr_s(reg, old(self)@, *expr, fuel as nat);
                final(self)@ == st && opt_vals(r) == rv
            }),
        decreases fuel, 0int,
    {
        if fuel == 0 {
            return None;
        }
        let f = fuel - 1;
        match expr {
            Expr::Literal { value } => Some(value.dup()),
            Expr::Grouping { expression } => self.evaluate_expr(expression, reg, f),
            Expr::Variable { name } => {
                let i = self.environment;
                match self.get_var(i, &name.lexeme) {
                    Some(v) => Some(v),
                    None => {
                        let msg = undefined_error_message(&name.lexeme);
                        Some(self.runtime_error(name, msg))
                    },
                }
            },
            Expr::Assign { name, value } => {
                let rv = self.evaluate_expr(value, reg, f);
                proof {
                    lemma_eval_expr(reg, old(self)@, **value, f as nat);
                }
                match rv {
                    None => None,
                    Some(v) => {
                        let i = self.environment;
                        let found = self.assign_var(i, &name.lexeme, v.dup());
                        if found {
                            Some(v)
                        } else {
                            let msg = undefined_error_message(&name.lexeme);
                            Some(self.runtime_error(name, msg))
                        }
                    },
                }
            },
            Expr::Logical { left, operator, right } => {
                let rl = self.evaluate_expr(left, reg, f);
                proof {
                    lemma_eval_expr(reg, old(self)@, **left, f as nat);
                }
                match rl {
                    None => None,
                    Some(l) => {
                        if operator.token_type == TokenType::Or {
                            if l.dup().is_thuthy() {
                                Some(l)
                            } else {
                                self.evaluate_expr(right, reg, f)
                            }
                        } else {
                            if !l.dup().is_thuthy() {
                                Some(l)
                            } else {
                                self.evaluate_expr(right, reg, f)
                            }
                        }
                    },
                }
            },
            Expr::Unary { operator, right } => {
                let rv = self.evaluate_expr(right, reg, f);
                match rv {
                    None => None,
                    Some(v) => match apply_unary(operator, v) {
                        Ok(o) => Some(o),
                        Err(m) => Some(self.runtime_error(operator, m)),
                    },
                }
            },
            Expr::Binary { left, operator, right } => {
                let rl = self.evaluate_expr(left, reg, f);
                proof {
                    lemma_eval_expr(reg, old(self)@, **left, f as nat);
                }
                match rl {
                    None => None,
                    Some(l) => {
                        let rr = self.evaluate_expr(right, reg, f);
                        match rr {
                            None => None,
                            Some(r) => match apply_binary(operator, l, r) {
                                Ok(o) => Some(o),
                                Err(m) => Some(self.runtime_error(operator, m)),
                            },
                        }
                    },
                }
            },
            Expr::Call { callee, paren, arguments } => {
                let rc = self.evaluate_expr(callee, reg, f);
                proof {
                    lemma_eval_expr(reg, old(self)@, **callee, f as nat);
                }
                match rc {
                    None => None,
                    Some(c) => {
                        let ghost st1 = self@;
                        proof {
                            assert(arguments@.skip(0) =~= arguments@);
                        }
                        let ra = self.evaluate_args(arguments, 0, reg, f);
                        proof {
                            lemma_eval_args(reg, st1, arguments@, f as nat);
                        }
                        let ghost (st2x, rax) = eval_args_s(reg, st1, arguments@, f as nat);
                        match ra {
                            None => None,
                            Some(args) => {
                                proof {
                                    assert(self@ == st2x);
                                    assert(rax == Some(vals_of(args@)));
                                }
                                if !c.is_callable() {
                                    let msg = String::from_str(
                                        "Can only call functions and classes.",
                                    );
                                    let nil = self.runtime_error(paren, msg);
                                    proof {
                                        assert(self@ == st2x.fail(
                                            *paren,
                                            "Can only call functions and classes."@,
                                        ));
                                        let (st1w, rcw) = eval_expr_s(reg, old(self)@, **callee, f as nat);
                                        assert(st1w == st1);
                                        assert(rcw == Some(c@));
                                        let (st2w, raw) = eval_args_s(reg, st1w, arguments@, f as nat);
                                        assert(st2w == st2x);
                                        assert(raw == Some(vals_of(args@)));
                                        assert(!callable_s(c@));
                                        let (stf, rvf) = finish_call_s(reg, st2w, *paren, c@, vals_of(args@), f as nat);
                                        assert(stf == st2w.fail(*paren, "Can only call functions and classes."@));
                                        assert(rvf == Some(Val::Nil));
                                        let (stw, rvw) = eval_expr_s(reg, old(self)@, *expr, fuel as nat);
                                        assert(stw == stf);
                                        assert(rvw == rvf);
                                    }
                                    return Some(nil);
                                }
                                if args.len() != c.arity() {
                                    let msg = arity_error_message(c.arity(), args.len());
                                    let nil = self.runtime_error(paren, msg);
                                    proof {
                                        assert(vals_of(args@).len() == args@.len());
                                        assert(self@ == st2x.fail(
                                            *paren,
                                            arity_msg(
                                                arity_s(c@),
                                                vals_of(args@).len() as int,
                                            ),
                                        ));
                                    }
                                    return Some(nil);
                                }
                                proof {
                                    assert(val_ok(c@, self@.envs.len() as int));
                                    assert(vals_of(args@).len() == args@.len());
                                }
                                c.call(self, reg, args, f)
                            },
                        }
                    },
                }
            },
        }
    }

    /// Evaluates the argument expressions from index `i` on, left to
    /// right, into a list of values.
    fn evaluate_args<Reg: NativeRegistry>(
        &mut self,
        es: &Vec<Expr>,
        i: usize,
        reg: &Reg,
        fuel: u64,
    ) -> (r: Option<Vec<Object>>)
        requires
            old(self).wf(),
            i <= es.len(),
            exprs_ok(es@.skip(i as int)),
        ensures
            final(self).wf(),
            ({
                let (st, rv) = eval_args_s(reg, old(self)@, es@.skip(i as int), fuel as nat);
                final(self)@ == st && match r {
                    Some(vs) => rv == Some(vals_of(vs@)),
                    None => rv is None,
                }
            }),
        decreases fuel, 0int,
    {
        if fuel == 0 {
            return None;
        }
        if i == es.len() {
            let empty: Vec<Object> = Vec::new();
            proof {
                assert(es@.skip(i as int).len() == 0);
                assert(vals_of(empty@) =~= Seq::<Val>::empty());
            }
            return Some(empty);
        }
        let f = fuel - 1;
        proof {
            assert(es@.skip(i as int)[0] == es@[i as int]);
        }
        let rv = self.evaluate_expr(&es[i], reg, f);
        proof {
            lemma_eval_expr(reg, old(self)@, es@[i as int], f as nat);
            assert(es@.skip(i as int).drop_first() =~= es@.skip(i as int + 1));
        }
        match rv {
            None => None,
            Some(v) => {
                let rest = self.evaluate_args(es, i + 1, reg, f);
                match rest {
                    None => None,
                    Some(vs) => {
                        let mut out = vs;
                        out.insert(0, v);
                        proof {
                            assert(vals_of(out@) =~= seq![v@] + vals_of(out@.drop_first()));
                            assert(out@.drop_first() =~= out@.subrange(1, out@.len() as int));
                        }
                        Some(out)
                    },
                }
            },
        }
    }

    /// Runs statements with the scope at `environment` current, then
    /// restores the previously current scope — unconditionally, however
    /// the block exited.
    pub fn execute_block<Reg: NativeRegistry>(
        &mut self,
        statements: &Vec<Stmt>,
        environment: usize,
        reg: &Reg,
        fuel: u64,
    ) -> (c: Control)
        requires
            old(self).wf(),
            stmts_ok(statements@),
            environment < old(self).envs.len(),
        ensures
            final(self).wf(),
            ({
                let (st, ctl) = exec_block_s(
                    reg,
                    old(self)@,
                    statements@,
                    environment as int,
                    fuel as nat,
                );
                final(self)@ == st && c@ == ctl
            }),
        decreases fuel, 1int,
    {
        let previous = self.environment;
        self.set_current(environment);
        proof {
            assert(statements@.skip(0) =~= statements@);
        }
        let c = self.run_stmts(statements, 0, reg, fuel);
        proof {
            lemma_eval_stmts(
                reg,
                old(self)@.with_cur(environment as int),
                statements@,
                fuel as nat,
            );
        }
        self.set_current(previous);
        c
    }

    /// Runs the statements from index `i` on, in order.
    fn run_stmts<Reg: NativeRegistry>(
        &mut self,
        ss: &Vec<Stmt>,
        i: usize,
        reg: &Reg,
        fuel: u64,
    ) -> (c: Control)
        requires
            old(self).wf(),
            i <= ss.len(),
            stmts_ok(ss@.skip(i as int)),
        ensures
            final(self).wf(),
            ({
                let (st, ctl) = eval_stmts_s(reg, old(self)@, ss@.skip(i as int), fuel as nat);
                final(self)@ == st && c@ == ctl
            }),
        decreases fuel, 0int,
    {
        if fuel == 0 {
            return Control::Stopped;
        }
        if i == ss.len() {
            proof {
                assert(ss@.skip(i as int).len() == 0);
            }
            return Control::Normal;
        }
        let f = fuel - 1;
        proof {
            assert(ss@.skip(i as int)[0] == ss@[i as int]);
        }
        let c = self.run_stmt(&ss[i], reg, f);
        proof {
            assert(ss@.skip(i as int).drop_first() =~= ss@.skip(i as int + 1));
        }
        match c {
            Control::Normal => self.run_stmts(ss, i + 1, reg, f),
            _ => c,
        }
    }

    /// Executes one statement: `evaluate_stmt` under the step budget.
    fn run_stmt<Reg: NativeRegistry>(&mut self, stmt: &Stmt, reg: &Reg, fuel: u64) -> (c: Control)
        requires
            old(self).wf(),
            stmt_ok(*stmt),
        ensures
            final(self).wf(),
            ({
                let (st, ctl) = eval_stmt_s(reg, old(self)@, *stmt, fuel as nat);
                final(self)@ == st && c@ == ctl
            }),
        decreases fuel, 0int,
    {
        if fuel == 0 {
            return Control::Stopped;
        }
        let f = fuel - 1;
        match stmt {
            Stmt::Print { expression } => {
                let rv = self.evaluate_expr(expression, reg, f);
                match rv {
                    None => Control::Stopped,
                    Some(value) => {
                        let text = render_object(&value);
                        self.emit_line(text);
                        Control::Normal
                    },
                }
            },
            Stmt::Expression { expression } => {
                let rv = self.evaluate_expr(expression, reg, f);
                match rv {
                    None => Control::Stopped,
                    Some(_) => Control::Normal,
                }
            },
            Stmt::Block { statements } => {
                let parent = self.environment;
                let idx = self.begin_scope(parent);
                self.execute_block(statements, idx, reg, f)
            },
            Stmt::Var { name, initializer } => {
                let rv = self.evaluate_expr(initializer, reg, f);
                proof {
                    lemma_eval_expr(reg, old(self)@, *initializer, f as nat);
                }
                match rv {
                    None => Control::Stopped,
                    Some(value) => {
                        self.define_var(&name.lexeme, value);
                        Control::Normal
                    },
                }
            },
            Stmt::While { condition, body } => {
                let rv = self.evaluate_expr(condition, reg, f);
                match rv {
                    None => Control::Stopped,
                    Some(v) => {
                        if v.is_thuthy() {
                            let c = self.run_stmt(body, reg, f);
                            match c {
                                Control::Normal => self.run_stmt(stmt, reg, f),
                                _ => c,
                            }
                        } else {
                            Control::Normal
                        }
                    },
                }
            },
            Stmt::If { condition, then_branch, else_branch } => {
                let rv = self.evaluate_expr(condition, reg, f);
                match rv {
                    None => Control::Stopped,
                    Some(condition_result) => {
                        if condition_result.is_thuthy() {
                            self.run_stmt(then_branch, reg, f)
                        } else {
                            match else_branch {
                                Some(branch) => self.run_stmt(branch, reg, f),
                                None => Control::Normal,
                            }
                        }
                    },
                }
            },
            Stmt::Function { name, params, body } => {
                let function = Object::Function {
                    name: name.lexeme.clone(),
                    params: rc_dup(params),
                    body: rc_dup(body),
                    env: self.environment,
                };
                proof {
                    assert(val_ok(function@, self@.envs.len() as int));
                }
                self.define_var(&name.lexeme, function);
                Control::Normal
            },
            Stmt::Return { value, .. } => {
                let rv = self.evaluate_expr(value, reg, f);
                match rv {
                    None => Control::Stopped,
                    Some(v) => Control::Return(v),
                }
            },
        }
    }

    /// Executes one statement for its effects: the public entry that a
    /// driver calls for each statement of the program in turn.
    pub fn evaluate_stmt<Reg: NativeRegistry>(&mut self, stmt: &Stmt, reg: &Reg, fuel: u64) -> (c:
        Control)
        requires
            old(self).wf(),
            stmt_ok(*stmt),
        ensures
            final(self).wf(),
            ({
                let (st, ctl) = eval_stmt_s(reg, old(self)@, *stmt, fuel as nat);
                final(self)@ == st && c@ == ctl
            }),
    {
        self.run_stmt(stmt, reg, fuel)
    }

    /// Runs a whole program: each statement in order, stopping on a
    /// stray return or an exhausted budget.
    pub fn interpret<Reg: NativeRegistry>(
        &mut self,
        statements: &Vec<Stmt>,
        reg: &Reg,
        fuel: u64,
    ) -> (c: Control)
        requires
            old(self).wf(),
            stmts_ok(statements@),
        ensures
            final(self).wf(),
            ({
                let (st, ctl) = eval_stmts_s(reg, old(self)@, statements@, fuel as nat);
                final(self)@ == st && c@ == ctl
            }),
    {
        proof {
            assert(statements@.skip(0) =~= statements@);
        }
        self.run_stmts(statements, 0, reg, fuel)
    }
}

impl Object {
    /// Invokes this value as a callable, re-entering the evaluator for a
    /// function body. The caller has already verified callability and
    /// checked the argument count against the arity.
    #[verifier::rlimit(60)]
    pub fn call<Reg: NativeRegistry>(
        &self,
        interpreter: &mut Interpreter,
        reg: &Reg,
        arguments: Vec<Object>,
        fuel: u64,
    ) -> (r: Option<Object>)
        requires
            old(interpreter).wf(),
            val_ok(self@, old(interpreter)@.envs.len() as int),
            vals_ok(vals_of(arguments@), old(interpreter)@.envs.len() as int),
            vals_of(arguments@).len() == arity_s(self@),
        ensures
            final(interpreter).wf(),
            ({
                let (st, rv) = call_s(reg, old(interpreter)@, self@, vals_of(arguments@), fuel as nat);
                final(interpreter)@ == st && opt_vals(r) == rv
            }),
        decreases fuel, 1int,
    {
        if fuel == 0 {
            return None;
        }
        let f = fuel - 1;
        match self {
            Object::Function { name, params, body, env } => {
                let idx = interpreter.begin_scope(*env);
                let ghost stp = interpreter@;
                let ghost pv = params@.map_values(|p: String| p@);
                let ghost av = vals_of(arguments@);
                let n = params.len();
                proof {
                    assert(pv.skip(0) =~= pv);
                    assert(av.skip(0) =~= av);
                }
                for k in 0..n
                    invariant
                        interpreter.wf(),
                        n == params@.len(),
                        n == arguments@.len(),
                        idx < interpreter.envs.len(),
                        interpreter@.envs.len() == stp.envs.len(),
                        pv == params@.map_values(|p: String| p@),
                        av == vals_of(arguments@),
                        vals_ok(av, stp.envs.len() as int),
                        bind_params_s(stp, idx as int, pv, av) == bind_params_s(
                            interpreter@,
                            idx as int,
                            pv.skip(k as int),
                            av.skip(k as int),
                        ),
                {
                    let v = arguments[k].dup();
                    proof {
                        assert(av[k as int] == v@);
                        assert(val_ok(av[k as int], stp.envs.len() as int));
                        assert(pv.skip(k as int)[0] == pv[k as int]);
                        assert(av.skip(k as int)[0] == av[k as int]);
                        assert(pv.skip(k as int).drop_first() =~= pv.skip(k as int + 1));
                        assert(av.skip(k as int).drop_first() =~= av.skip(k as int + 1));
                    }
                    let pname = &params[k];
                    interpreter.define_in(idx, pname, v);
                }
                proof {
                    assert(pv.skip(n as int).len() == 0);
                    assert(interpreter@ == bind_params_s(stp, idx as int, pv, av));
                    assert(stmts_ok(body@));
                }
                let ctl = interpreter.execute_block(body, idx, reg, f);
                match ctl {
                    Control::Stopped => None,
                    Control::Return(v) => Some(v),
                    Control::Normal => Some(Object::Nil),
                }
            },
            Object::Builtin(name) => {
                let result = reg.invoke(name, &arguments);
                match result {
                    Object::Function { .. } => Some(Object::Nil),
                    _ => Some(result),
                }
            },
            _ => Some(Object::Nil),
        }
    }
}

} // verus!
