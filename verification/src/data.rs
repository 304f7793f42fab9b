//! The value and expression model of the interpreter.
//!
//! A `Value`-like `Object` is a tagged variant: symbols, strings, numbers,
//! booleans, lists, conditional cases, functions and the exit sentinel.
//! An `Expr` is either a single object (an atom) or a parenthesized sequence
//! of sub-expressions.  Floating-point literals are carried by their source
//! text alone: two float atoms are equal exactly when their literal texts are
//! equal.

use vstd::prelude::*;

verus! {

/// Outcome of running a sequence of top-level expressions: either the driver
/// may go on, or an exit sentinel was reached, carrying its optional message.
#[derive(Debug, Clone)]
pub enum Inhibit {
    Continue,
    Stop(Option<String>),
}

/// The builtin procedures, as a closed set.
#[derive(Debug, Clone, Copy, PartialEq, Eq, Structural)]
pub enum Builtin {
    List,
    Cons,
    Print,
    Exit,
    Cond,
    Equals,
    And,
    Or,
    Not,
    Add,
    Sub,
    Mul,
    Div,
    Rem,
}

/// A number: a 64-bit signed integer, or a float literal kept as its source
/// text.  Equality of floats is equality of the texts.
#[derive(Debug)]
pub enum Number {
    Int(i64),
    Float(String),
}

/// A boolean literal.
#[derive(Debug, Clone, Copy, PartialEq, Eq, Structural)]
pub enum Boolean {
    True,
    False,
}

/// A builtin procedure reference; compares equal by which procedure it names.
#[derive(Debug)]
pub struct BuiltinFn {
    pub which: Builtin,
}

impl BuiltinFn {
    /// A reference to the given builtin procedure.
    pub fn new(which: Builtin) -> (r: BuiltinFn)
        ensures
            r.which == which,
    {
        BuiltinFn { which }
    }

    /// The canonical name the procedure is bound under.
    pub fn name(&self) -> (r: String)
        ensures
            r@ == crate::env::builtin_name(self.which),
    {
        let r = match self.which {
            Builtin::List => String::from_str("list"),
            Builtin::Cons => String::from_str("cons"),
            Builtin::Print => String::from_str("print"),
            Builtin::Exit => String::from_str("exit"),
            Builtin::Cond => String::from_str("cond"),
            Builtin::Equals => String::from_str("="),
            Builtin::And => String::from_str("and"),
            Builtin::Or => String::from_str("or"),
            Builtin::Not => String::from_str("not"),
            Builtin::Add => String::from_str("+"),
            Builtin::Sub => String::from_str("-"),
            Builtin::Mul => String::from_str("*"),
            Builtin::Div => String::from_str("/"),
            Builtin::Rem => String::from_str("%"),
        };
        r
    }
}

/// A function value: a builtin, or a user-defined function made of a
/// parameter list (each a `Symbol` object) and a body sequence.
#[derive(Debug)]
pub enum LispFn {
    Builtin(BuiltinFn),
    UserDef(Vec<Object>, Vec<Expr>),
}

/// A function object.
#[derive(Debug)]
pub struct Function {
    pub procedure: Box<LispFn>,
}

/// A runtime value or literal.
#[derive(Debug)]
pub enum Object {
    Symbol(String),
    Str(String),
    Number(Number),
    Boolean(Boolean),
    List(Vec<Object>),
    ConditionalCase(Box<Expr>, Vec<Expr>),
    Function(Function),
    Exit(Option<String>),
}

/// An expression tree node: an atom or a parenthesized compound.
#[derive(Debug)]
pub enum Expr {
    Expr(Object),
    Exprs(Vec<Expr>),
}

// ---------------------------------------------------------------------------
// Mathematical model
// ---------------------------------------------------------------------------

/// Model of a number.
pub enum NumberV {
    Int(int),
    Float(Seq<char>),
}

/// Model of a function value.
pub enum FunctionV {
    Builtin(Builtin),
    UserDef(Seq<ObjectV>, Seq<ExprV>),
}

/// Model of a value.
pub enum ObjectV {
    Symbol(Seq<char>),
    Str(Seq<char>),
    Number(NumberV),
    Boolean(bool),
    List(Seq<ObjectV>),
    Cond(Box<ExprV>, Seq<ExprV>),
    Function(FunctionV),
    Exit(Option<Seq<char>>),
}

/// Model of an expression.
pub enum ExprV {
    Atom(ObjectV),
    Compound(Seq<ExprV>),
}

pub open spec fn view_exprs(es: Seq<Expr>) -> Seq<ExprV>
    decreases es,
{
    Seq::new(es.len(), |i: int| if 0 <= i < es.len() { view_expr(es[i]) } else { ExprV::Compound(Seq::empty()) })
}

pub open spec fn view_objs(os: Seq<Object>) -> Seq<ObjectV>
    decreases os,
{
    Seq::new(os.len(), |i: int| if 0 <= i < os.len() { view_obj(os[i]) } else { ObjectV::Boolean(false) })
}

pub open spec fn view_expr(e: Expr) -> ExprV
    decreases e,
{
    match e {
        Expr::Expr(o) => ExprV::Atom(view_obj(o)),
        Expr::Exprs(es) => ExprV::Compound(view_exprs(es@)),
    }
}

pub open spec fn view_obj(o: Object) -> ObjectV
    decreases o,
{
    match o {
        Object::Symbol(s) => ObjectV::Symbol(s@),
        Object::Str(s) => ObjectV::Str(s@),
        Object::Number(n) => ObjectV::Number(match n {
            Number::Int(i) => NumberV::Int(i as int),
            Number::Float(t) => NumberV::Float(t@),
        }),
        Object::Boolean(b) => ObjectV::Boolean(b is True),
        Object::List(xs) => ObjectV::List(view_objs(xs@)),
        Object::ConditionalCase(c, body) => ObjectV::Cond(Box::new(view_expr(*c)), view_exprs(body@)),
        Object::Function(f) => ObjectV::Function(view_fn(f)),
        Object::Exit(m) => ObjectV::Exit(match m {
            Option::Some(s) => Option::Some(s@),
            Option::None => Option::None,
        }),
    }
}

pub open spec fn view_fn(f: Function) -> FunctionV
    decreases f,
{
    match *f.procedure {
        LispFn::Builtin(b) => FunctionV::Builtin(b.which),
        LispFn::UserDef(params, body) => FunctionV::UserDef(view_objs(params@), view_exprs(body@)),
    }
}

impl View for Expr {
    type V = ExprV;

    open spec fn view(&self) -> ExprV {
        view_expr(*self)
    }
}

impl View for Object {
    type V = ObjectV;

    open spec fn view(&self) -> ObjectV {
        view_obj(*self)
    }
}

impl View for Function {
    type V = FunctionV;

    open spec fn view(&self) -> FunctionV {
        view_fn(*self)
    }
}

impl View for Number {
    type V = NumberV;

    open spec fn view(&self) -> NumberV {
        match *self {
            Number::Int(i) => NumberV::Int(i as int),
            Number::Float(t) => NumberV::Float(t@),
        }
    }
}

impl View for Boolean {
    type V = bool;

    open spec fn view(&self) -> bool {
        *self is True
    }
}

// ---------------------------------------------------------------------------
// Size measures (used as termination measures by the evaluator)
// ---------------------------------------------------------------------------

/// Size of an expression: an atom weighs one, a compound two more than its
/// parts together.
pub open spec fn size_expr(e: ExprV) -> nat
    decreases e, 0int,
{
    match e {
        ExprV::Atom(_) => 1,
        ExprV::Compound(es) => 2 + size_list_from(es, 0),
    }
}

/// Combined size of the expressions `es[i..]`.
pub open spec fn size_list_from(es: Seq<ExprV>, i: int) -> nat
    decreases es, es.len() - i,
{
    if i < 0 || i >= es.len() {
        0
    } else {
        size_expr(es[i]) + size_list_from(es, i + 1)
    }
}

pub proof fn lemma_size_expr_pos(e: ExprV)
    ensures
        size_expr(e) >= 1,
{
}

/// Every element of a suffix weighs no more than the whole suffix.
pub proof fn lemma_size_elem_le(es: Seq<ExprV>, i: int, j: int)
    requires
        0 <= i <= j < es.len(),
    ensures
        size_expr(es[j]) <= size_list_from(es, i),
    decreases j - i,
{
    if i < j {
        lemma_size_elem_le(es, i + 1, j);
    }
}

// ---------------------------------------------------------------------------
// Deep clone
// ---------------------------------------------------------------------------

impl Expr {
    /// Structural copy; the copy has the same model.
    pub fn duplicate(&self) -> (r: Expr)
        ensures
            r@ == self@,
        decreases *self,
    {
        match self {
            Expr::Expr(o) => Expr::Expr(o.duplicate()),
            Expr::Exprs(es) => Expr::Exprs(dup_exprs(es)),
        }
    }
}

impl Object {
    /// Structural copy; the copy has the same model.
    pub fn duplicate(&self) -> (r: Object)
        ensures
            r@ == self@,
        decreases *self,
    {
        match self {
            Object::Symbol(s) => Object::Symbol(s.clone()),
            Object::Str(s) => Object::Str(s.clone()),
            Object::Number(n) => Object::Number(match n {
                Number::Int(i) => Number::Int(*i),
                Number::Float(t) => Number::Float(t.clone()),
            }),
            Object::Boolean(b) => Object::Boolean(*b),
            Object::List(xs) => Object::List(dup_objs(xs)),
            Object::ConditionalCase(c, body) => {
                let r = Object::ConditionalCase(Box::new((**c).duplicate()), dup_exprs(body));
                assert(r@ == self@);
                r
            },
            Object::Function(f) => Object::Function(f.duplicate()),
            Object::Exit(m) => Object::Exit(match m {
                Option::Some(s) => Option::Some(s.clone()),
                Option::None => Option::None,
            }),
        }
    }
}

impl Function {
    /// Structural copy; the copy has the same model.
    pub fn duplicate(&self) -> (r: Function)
        ensures
            r@ == self@,
        decreases *self,
    {
        match &*self.procedure {
            LispFn::Builtin(b) => Function { procedure: Box::new(LispFn::Builtin(BuiltinFn { which: b.which })) },
            LispFn::UserDef(params, body) => {
                let r = Function {
                    procedure: Box::new(LispFn::UserDef(dup_objs(params), dup_exprs(body))),
                };
                assert(r@ == self@);
                r
            },
        }
    }
}

fn dup_exprs(es: &Vec<Expr>) -> (r: Vec<Expr>)
    ensures
        r@.len() == es@.len(),
        view_exprs(r@) == view_exprs(es@),
    decreases *es,
{
    let mut r: Vec<Expr> = Vec::new();
    let n = es.len();
    for k in 0..n
        invariant
            n == es@.len(),
            r@.len() == k,
            forall|j: int| 0 <= j < k ==> view_expr(r@[j]) == view_expr(es@[j]),
        decreases n - k,
    {
        r.push(es[k].duplicate());
    }
    assert(view_exprs(r@) =~= view_exprs(es@));
    r
}

fn dup_objs(os: &Vec<Object>) -> (r: Vec<Object>)
    ensures
        r@.len() == os@.len(),
        view_objs(r@) == view_objs(os@),
    decreases *os,
{
    let mut r: Vec<Object> = Vec::new();
    let n = os.len();
    for k in 0..n
        invariant
            n == os@.len(),
            r@.len() == k,
            forall|j: int| 0 <= j < k ==> view_obj(r@[j]) == view_obj(os@[j]),
        decreases n - k,
    {
        r.push(os[k].duplicate());
    }
    assert(view_objs(r@) =~= view_objs(os@));
    r
}

// ---------------------------------------------------------------------------
// Structural equality
// ---------------------------------------------------------------------------

/// Structural equality of two values, deciding equality of their models.
/// Floats compare by their literal text; builtins by which procedure they
/// name; user-defined functions by parameters and body.
pub fn obj_eq(a: &Object, b: &Object) -> (r: bool)
    ensures
        r == (a@ == b@),
    decreases *a, 0int,
{
    match (a, b) {
        (Object::Symbol(x), Object::Symbol(y)) => *x == *y,
        (Object::Str(x), Object::Str(y)) => *x == *y,
        (Object::Number(x), Object::Number(y)) => match (x, y) {
            (Number::Int(i), Number::Int(j)) => *i == *j,
            (Number::Float(s), Number::Float(t)) => *s == *t,
            _ => false,
        },
        (Object::Boolean(x), Object::Boolean(y)) => match (x, y) {
            (Boolean::True, Boolean::True) => true,
            (Boolean::False, Boolean::False) => true,
            _ => false,
        },
        (Object::List(xs), Object::List(ys)) => objs_eq(xs, ys),
        (Object::ConditionalCase(c1, b1), Object::ConditionalCase(c2, b2)) => {
            expr_eq(c1, c2) && exprs_eq(b1, b2)
        },
        (Object::Function(f), Object::Function(g)) => match (&*f.procedure, &*g.procedure) {
            (LispFn::Builtin(x), LispFn::Builtin(y)) => x.which == y.which,
            (LispFn::UserDef(p1, b1), LispFn::UserDef(p2, b2)) => {
                objs_eq(p1, p2) && exprs_eq(b1, b2)
            },
            _ => false,
        },
        (Object::Exit(x), Object::Exit(y)) => match (x, y) {
            (Option::Some(s), Option::Some(t)) => *s == *t,
            (Option::None, Option::None) => true,
            _ => false,
        },
        _ => false,
    }
}

/// Structural equality of two expressions, deciding equality of their models.
pub fn expr_eq(a: &Expr, b: &Expr) -> (r: bool)
    ensures
        r == (a@ == b@),
    decreases *a, 0int,
{
    match (a, b) {
        (Expr::Expr(x), Expr::Expr(y)) => obj_eq(x, y),
        (Expr::Exprs(xs), Expr::Exprs(ys)) => exprs_eq(xs, ys),
        _ => false,
    }
}

fn objs_eq(xs: &Vec<Object>, ys: &Vec<Object>) -> (r: bool)
    ensures
        r == (view_objs(xs@) == view_objs(ys@)),
    decreases *xs, 1int,
{
    if xs.len() != ys.len() {
        assert(view_objs(xs@).len() != view_objs(ys@).len());
        return false;
    }
    let n = xs.len();
    for k in 0..n
        invariant
            n == xs@.len(),
            n == ys@.len(),
            forall|j: int| 0 <= j < k ==> view_obj(xs@[j]) == view_obj(ys@[j]),
        decreases n - k,
    {
        if !obj_eq(&xs[k], &ys[k]) {
            assert(view_objs(xs@)[k as int] != view_objs(ys@)[k as int]);
            return false;
        }
    }
    assert(view_objs(xs@) =~= view_objs(ys@));
    true
}

fn exprs_eq(xs: &Vec<Expr>, ys: &Vec<Expr>) -> (r: bool)
    ensures
        r == (view_exprs(xs@) == view_exprs(ys@)),
    decreases *xs, 1int,
{
    if xs.len() != ys.len() {
        assert(view_exprs(xs@).len() != view_exprs(ys@).len());
        return false;
    }
    let n = xs.len();
    for k in 0..n
        invariant
            n == xs@.len(),
            n == ys@.len(),
            forall|j: int| 0 <= j < k ==> view_expr(xs@[j]) == view_expr(ys@[j]),
        decreases n - k,
    {
        if !expr_eq(&xs[k], &ys[k]) {
            assert(view_exprs(xs@)[k as int] != view_exprs(ys@)[k as int]);
            return false;
        }
    }
    assert(view_exprs(xs@) =~= view_exprs(ys@));
    true
}

// ---------------------------------------------------------------------------
// Substitution
// ---------------------------------------------------------------------------

/// The mapping described by substitution pairs; a later pair with an equal
/// key shadows an earlier one.
pub open spec fn var_map_of(ps: Seq<(Object, Object)>) -> Map<ObjectV, ObjectV>
    decreases ps.len(),
{
    if ps.len() == 0 {
        Map::empty()
    } else {
        var_map_of(ps.drop_last()).insert(view_obj(ps.last().0), view_obj(ps.last().1))
    }
}

/// A substitution mapping from values to values, ordered by insertion.
pub struct VarMap {
    pairs: Vec<(Object, Object)>,
}

impl View for VarMap {
    type V = Map<ObjectV, ObjectV>;

    closed spec fn view(&self) -> Map<ObjectV, ObjectV> {
        var_map_of(self.pairs@)
    }
}

impl VarMap {
    /// An empty mapping.
    pub fn new() -> (r: VarMap)
        ensures
            r@ == Map::<ObjectV, ObjectV>::empty(),
    {
        let r = VarMap { pairs: Vec::new() };
        proof {
            assert(r@ =~= Map::<ObjectV, ObjectV>::empty());
        }
        r
    }

    /// Adds a pair; an existing binding of an equal key is shadowed.
    pub fn insert_pair(&mut self, k: Object, v: Object)
        ensures
            final(self)@ == old(self)@.insert(k@, v@),
    {
        self.pairs.push((k, v));
        proof {
            assert(self.pairs@.drop_last() =~= old(self).pairs@);
        }
    }

    /// The value mapped to a key, if one is.
    fn lookup(&self, o: &Object) -> (r: Option<&Object>)
        ensures
            match r {
                Option::Some(v) => self@.contains_key(o@) && v@ == self@[o@],
                Option::None => !self@.contains_key(o@),
            },
    {
        let n = self.pairs.len();
        let mut j = n;
        proof {
            assert(self.pairs@.subrange(0, n as int) =~= self.pairs@);
        }
        loop
            invariant_except_break
                n == self.pairs@.len(),
                j <= n,
                var_map_of(self.pairs@).contains_key(o@) == var_map_of(
                    self.pairs@.subrange(0, j as int),
                ).contains_key(o@),
                var_map_of(self.pairs@.subrange(0, j as int)).contains_key(o@) ==> var_map_of(
                    self.pairs@,
                )[o@] == var_map_of(self.pairs@.subrange(0, j as int))[o@],
                forall|x: int| j <= x < n ==> view_obj(#[trigger] self.pairs@[x].0) != o@,
            ensures
                j <= n,
                ({
                    let hit = j < n && view_obj(self.pairs@[j as int].0) == o@;
                    &&& hit ==> self@.contains_key(o@) && self@[o@] == view_obj(
                        self.pairs@[j as int].1,
                    )
                    &&& !hit ==> !self@.contains_key(o@)
                }),
            decreases j,
        {
            if j == 0 {
                proof {
                    assert(self.pairs@.subrange(0, 0) =~= Seq::<(Object, Object)>::empty());
                }
                break;
            }
            j = j - 1;
            proof {
                assert(self.pairs@.subrange(0, j + 1).drop_last() =~= self.pairs@.subrange(
                    0,
                    j as int,
                ));
                assert(self.pairs@.subrange(0, j + 1).last() == self.pairs@[j as int]);
            }
            if obj_eq(&self.pairs[j].0, o) {
                break;
            }
        }
        if j < n {
            let hit = obj_eq(&self.pairs[j].0, o);
            if hit {
                return Option::Some(&self.pairs[j].1);
            }
        }
        Option::None
    }
}

impl Expr {
    /// Structural substitution: every atom whose object equals a mapped key
    /// becomes an atom of the mapped value; compound children and the inside
    /// of conditional cases are rewritten recursively.
    pub fn replace_all(&self, m: &VarMap) -> (r: Expr)
        ensures
            r@ == crate::semantics::subst_expr(self@, m@),
        decreases *self, 0int,
    {
        match self {
            Expr::Expr(o) => match o {
                Object::ConditionalCase(c, body) => {
                    let c2 = Box::new((**c).replace_all(m));
                    let body2 = replace_in_list(body, m);
                    let r = Expr::Expr(Object::ConditionalCase(c2, body2));
                    proof {
                        assert(view_exprs(body2@) =~= crate::semantics::subst_list(
                            view_exprs(body@),
                            m@,
                        ));
                    }
                    r
                },
                _ => {
                    match m.lookup(o) {
                        Option::Some(v) => Expr::Expr(v.duplicate()),
                        Option::None => self.duplicate(),
                    }
                },
            },
            Expr::Exprs(es) => {
                let es2 = replace_in_list(es, m);
                let r = Expr::Exprs(es2);
                proof {
                    assert(view_exprs(es2@) =~= crate::semantics::subst_list(
                        view_exprs(es@),
                        m@,
                    ));
                }
                r
            },
        }
    }
}

fn replace_in_list(es: &Vec<Expr>, m: &VarMap) -> (r: Vec<Expr>)
    ensures
        r@.len() == es@.len(),
        view_exprs(r@) == crate::semantics::subst_list(view_exprs(es@), m@),
    decreases *es, 1int,
{
    let mut r: Vec<Expr> = Vec::new();
    let n = es.len();
    for k in 0..n
        invariant
            n == es@.len(),
            r@.len() == k,
            forall|j: int| 0 <= j < k ==> view_expr(r@[j]) == crate::semantics::subst_expr(
                view_expr(es@[j]),
                m@,
            ),
        decreases n - k,
    {
        r.push(es[k].replace_all(m));
    }
    assert(view_exprs(r@) =~= crate::semantics::subst_list(view_exprs(es@), m@));
    r
}

// ---------------------------------------------------------------------------
// Function construction
// ---------------------------------------------------------------------------

impl Function {
    /// A user-defined function from parameter declarations and a body: every
    /// parameter must be a bare symbol and the body must hold at least one
    /// expression.
    pub fn from_exprs(declaration_vars: &[Expr], body: &[Expr]) -> (r: Result<
        Function,
        crate::eval::EvalError,
    >)
        ensures
            match r {
                Result::Ok(f) => crate::semantics::make_function_spec(
                    view_exprs(declaration_vars@),
                    view_exprs(body@),
                ) == Result::Ok::<FunctionV, crate::semantics::EvalErrorV>(f@),
                Result::Err(e) => crate::semantics::make_function_spec(
                    view_exprs(declaration_vars@),
                    view_exprs(body@),
                ) == Result::Err::<FunctionV, crate::semantics::EvalErrorV>(e@),
            },
    {
        let ghost pv = view_exprs(declaration_vars@);
        let mut vars: Vec<Object> = Vec::new();
        let n = declaration_vars.len();
        for k in 0..n
            invariant
                n == declaration_vars@.len(),
                pv == view_exprs(declaration_vars@),
                vars@.len() == k,
                forall|j: int| 0 <= j < k ==> #[trigger] crate::semantics::param_is_symbol(
                    pv[j],
                ),
                forall|j: int| 0 <= j < k ==> view_obj(#[trigger] vars@[j]) == pv[j]->Atom_0,
            decreases n - k,
        {
            let e = vstd::slice::slice_index_get(declaration_vars, k);
            proof {
                assert(pv[k as int] == view_expr(declaration_vars@[k as int]));
            }
            match e {
                Expr::Expr(o) => match o {
                    Object::Symbol(_) => {
                        vars.push(o.duplicate());
                        proof {
                            assert(crate::semantics::param_is_symbol(pv[k as int]));
                        }
                    },
                    _ => {
                        proof {
                            assert(pv[k as int] == ExprV::Atom(view_obj(declaration_vars@[k as int]->Expr_0)));
                            assert(!crate::semantics::param_is_symbol(pv[k as int]));
                            assert(!crate::semantics::params_all_symbols(pv));
                        }
                        return Result::Err(crate::eval::EvalError::InvalidVarName);
                    },
                },
                _ => {
                    proof {
                        assert(pv[k as int] is Compound);
                        assert(!crate::semantics::param_is_symbol(pv[k as int]));
                        assert(!crate::semantics::params_all_symbols(pv));
                    }
                    return Result::Err(crate::eval::EvalError::InvalidVarName);
                },
            }
        }
        if body.len() == 0 {
            proof {
                assert(crate::semantics::params_all_symbols(pv));
            }
            return Result::Err(crate::eval::EvalError::EmptyFunctionBody);
        }
        let mut body2: Vec<Expr> = Vec::new();
        let bn = body.len();
        for k in 0..bn
            invariant
                bn == body@.len(),
                body2@.len() == k,
                forall|j: int| 0 <= j < k ==> view_expr(body2@[j]) == view_expr(body@[j]),
            decreases bn - k,
        {
            body2.push(vstd::slice::slice_index_get(body, k).duplicate());
        }
        let f = Function { procedure: Box::new(LispFn::UserDef(vars, body2)) };
        proof {
            assert(crate::semantics::params_all_symbols(pv));
            assert(view_objs(f.procedure->UserDef_0@) =~= crate::semantics::params_objs(pv));
            assert(view_exprs(f.procedure->UserDef_1@) =~= view_exprs(body@));
        }
        Result::Ok(f)
    }
}

// ---------------------------------------------------------------------------
// Accessors
// ---------------------------------------------------------------------------

impl Expr {
    /// The wrapped object of an atom, if this node is one.
    pub fn unwrap_expr(&self) -> (r: Option<&Object>)
        ensures
            match r {
                Option::Some(o) => self@ == ExprV::Atom(o@),
                Option::None => self@ is Compound,
            },
    {
        match self {
            Expr::Expr(o) => Option::Some(o),
            _ => Option::None,
        }
    }
}

impl Object {
    /// The wrapped boolean, if this value is one.
    pub fn unwrap_boolean(&self) -> (r: Option<&Boolean>)
        ensures
            match r {
                Option::Some(b) => self@ == ObjectV::Boolean(b@),
                Option::None => !(self@ is Boolean),
            },
    {
        match self {
            Object::Boolean(b) => Option::Some(b),
            _ => Option::None,
        }
    }

    /// The wrapped number, if this value is one.
    pub fn unwrap_number(&self) -> (r: Option<&Number>)
        ensures
            match r {
                Option::Some(n) => self@ == ObjectV::Number(n@),
                Option::None => !(self@ is Number),
            },
    {
        match self {
            Object::Number(n) => Option::Some(n),
            _ => Option::None,
        }
    }
}

} // verus!
