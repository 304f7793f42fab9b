//! The global binding environment.
//!
//! One flat mutable mapping from names to values, seeded with the builtin
//! procedures.  Bindings are define-once: adding an existing name or
//! rebinding a missing one is outside the operations' contracts, and the
//! evaluator tests for both before touching the environment.

use vstd::prelude::*;

use crate::data::Builtin;
use crate::data::BuiltinFn;
use crate::data::Function;
use crate::data::FunctionV;
use crate::data::LispFn;
use crate::data::Object;
use crate::data::ObjectV;
use crate::data::view_obj;

verus! {

/// The canonical name of a builtin procedure.
pub open spec fn builtin_name(b: Builtin) -> Seq<char> {
    match b {
        Builtin::List => "list"@,
        Builtin::Cons => "cons"@,
        Builtin::Print => "print"@,
        Builtin::Exit => "exit"@,
        Builtin::Cond => "cond"@,
        Builtin::Equals => "="@,
        Builtin::And => "and"@,
        Builtin::Or => "or"@,
        Builtin::Not => "not"@,
        Builtin::Add => "+"@,
        Builtin::Sub => "-"@,
        Builtin::Mul => "*"@,
        Builtin::Div => "/"@,
        Builtin::Rem => "%"@,
    }
}

/// The builtin function value named `b`.
pub open spec fn builtin_obj(b: Builtin) -> ObjectV {
    ObjectV::Function(FunctionV::Builtin(b))
}

/// The mapping described by a sequence of bindings; a later binding of a
/// name shadows an earlier one.
pub open spec fn env_map(ps: Seq<(String, Object)>) -> Map<Seq<char>, ObjectV>
    decreases ps.len(),
{
    if ps.len() == 0 {
        Map::empty()
    } else {
        env_map(ps.drop_last()).insert(ps.last().0@, view_obj(ps.last().1))
    }
}

/// The environment of a fresh run: exactly the builtin procedures, each
/// bound under its canonical name.
pub open spec fn base_env() -> Map<Seq<char>, ObjectV> {
    Map::empty().insert(builtin_name(Builtin::List), builtin_obj(Builtin::List)).insert(
        builtin_name(Builtin::Cons),
        builtin_obj(Builtin::Cons),
    ).insert(builtin_name(Builtin::Print), builtin_obj(Builtin::Print)).insert(
        builtin_name(Builtin::Exit),
        builtin_obj(Builtin::Exit),
    ).insert(builtin_name(Builtin::Cond), builtin_obj(Builtin::Cond)).insert(
        builtin_name(Builtin::Equals),
        builtin_obj(Builtin::Equals),
    ).insert(builtin_name(Builtin::And), builtin_obj(Builtin::And)).insert(
        builtin_name(Builtin::Or),
        builtin_obj(Builtin::Or),
    ).insert(builtin_name(Builtin::Not), builtin_obj(Builtin::Not)).insert(
        builtin_name(Builtin::Add),
        builtin_obj(Builtin::Add),
    ).insert(builtin_name(Builtin::Sub), builtin_obj(Builtin::Sub)).insert(
        builtin_name(Builtin::Mul),
        builtin_obj(Builtin::Mul),
    ).insert(builtin_name(Builtin::Div), builtin_obj(Builtin::Div)).insert(
        builtin_name(Builtin::Rem),
        builtin_obj(Builtin::Rem),
    )
}

/// The global environment: a flat mapping from names to values.
pub struct Env {
    pairs: Vec<(String, Object)>,
}

impl View for Env {
    type V = Map<Seq<char>, ObjectV>;

    closed spec fn view(&self) -> Map<Seq<char>, ObjectV> {
        env_map(self.pairs@)
    }
}

fn make_builtin(which: Builtin) -> (r: Object)
    ensures
        r@ == builtin_obj(which),
{
    Object::Function(Function { procedure: Box::new(LispFn::Builtin(BuiltinFn { which })) })
}

impl Env {
    /// A fresh environment, holding exactly the builtin procedures.
    pub fn new() -> (r: Env)
        ensures
            r@ == base_env(),
    {
        let mut e = Env { pairs: Vec::new() };
        proof {
            assert(e@ =~= Map::<Seq<char>, ObjectV>::empty());
        }
        e.seed(String::from_str("list"), Builtin::List);
        e.seed(String::from_str("cons"), Builtin::Cons);
        e.seed(String::from_str("print"), Builtin::Print);
        e.seed(String::from_str("exit"), Builtin::Exit);
        e.seed(String::from_str("cond"), Builtin::Cond);
        e.seed(String::from_str("="), Builtin::Equals);
        e.seed(String::from_str("and"), Builtin::And);
        e.seed(String::from_str("or"), Builtin::Or);
        e.seed(String::from_str("not"), Builtin::Not);
        e.seed(String::from_str("+"), Builtin::Add);
        e.seed(String::from_str("-"), Builtin::Sub);
        e.seed(String::from_str("*"), Builtin::Mul);
        e.seed(String::from_str("/"), Builtin::Div);
        e.seed(String::from_str("%"), Builtin::Rem);
        e
    }

    fn seed(&mut self, name: String, which: Builtin)
        ensures
            final(self)@ == old(self)@.insert(name@, builtin_obj(which)),
    {
        let o = make_builtin(which);
        self.pairs.push((name, o));
        proof {
            assert(self.pairs@.drop_last() =~= old(self).pairs@);
        }
    }

    /// A fresh environment holding the builtins and then the given functions,
    /// each bound under its given name.
    pub fn with_functions(functions: Vec<(String, Function)>) -> (r: Env)
        ensures
            r@ == insert_functions(base_env(), functions@),
    {
        let mut e = Env::new();
        let n = functions.len();
        let ghost fv = functions@;
        proof {
            assert(fv.subrange(0, 0) =~= Seq::<(String, Function)>::empty());
        }
        for k in 0..n
            invariant
                n == fv.len(),
                functions@ == fv,
                e@ == insert_functions(base_env(), fv.subrange(0, k as int)),
            decreases n - k,
        {
            let name = functions[k].0.clone();
            let f = functions[k].1.duplicate();
            let ghost pre = e.pairs@;
            e.pairs.push((name, Object::Function(f)));
            proof {
                assert(e.pairs@.drop_last() =~= pre);
                assert(fv.subrange(0, k + 1).drop_last() =~= fv.subrange(0, k as int));
                assert(fv.subrange(0, k + 1).last() == fv[k as int]);
            }
        }
        proof {
            assert(fv.subrange(0, n as int) =~= fv);
        }
        e
    }

    /// All bindings, as name and value pairs; their mapping is this
    /// environment's.
    pub fn variables(&self) -> (r: Vec<(String, Object)>)
        ensures
            env_map(r@) == self@,
    {
        let mut r: Vec<(String, Object)> = Vec::new();
        let n = self.pairs.len();
        for k in 0..n
            invariant
                n == self.pairs@.len(),
                r@.len() == k,
                forall|j: int| 0 <= j < k ==> r@[j].0@ == self.pairs@[j].0@ && view_obj(r@[j].1)
                    == view_obj(self.pairs@[j].1),
            decreases n - k,
        {
            let name = self.pairs[k].0.clone();
            let v = self.pairs[k].1.duplicate();
            r.push((name, v));
        }
        proof {
            lemma_env_map_congruent(r@, self.pairs@);
        }
        r
    }

    /// Whether a name is bound.
    pub fn var_exists(&self, varname: &String) -> (r: bool)
        ensures
            r == self@.contains_key(varname@),
    {
        self.find_from_end(varname).is_some()
    }

    /// The value bound to a name; the name must be bound.
    pub fn get_variable(&self, varname: &String) -> (r: Object)
        requires
            self@.contains_key(varname@),
        ensures
            r@ == self@[varname@],
    {
        match self.find_from_end(varname) {
            Option::Some(k) => self.pairs[k].1.duplicate(),
            Option::None => {
                // unreachable: the caller guarantees the binding exists
                proof {
                    assert(false);
                }
                Object::Boolean(crate::data::Boolean::False)
            },
        }
    }

    /// The index of the binding that a lookup sees: the last one with this
    /// name, if any.
    fn find_from_end(&self, varname: &String) -> (r: Option<usize>)
        ensures
            match r {
                Option::Some(k) => {
                    &&& k < self.pairs@.len()
                    &&& self.pairs@[k as int].0@ == varname@
                    &&& self@.contains_key(varname@)
                    &&& self@[varname@] == view_obj(self.pairs@[k as int].1)
                },
                Option::None => !self@.contains_key(varname@),
            },
    {
        let n = self.pairs.len();
        let mut j = n;
        proof {
            assert(self.pairs@.subrange(0, n as int) =~= self.pairs@);
        }
        loop
            invariant_except_break
                n == self.pairs@.len(),
                j <= n,
                env_map(self.pairs@).contains_key(varname@) == env_map(
                    self.pairs@.subrange(0, j as int),
                ).contains_key(varname@),
                env_map(self.pairs@.subrange(0, j as int)).contains_key(varname@)
                    ==> env_map(self.pairs@)[varname@] == env_map(
                    self.pairs@.subrange(0, j as int),
                )[varname@],
                forall|x: int| j <= x < n ==> self.pairs@[x].0@ != varname@,
            ensures
                j <= n,
                ({
                    let hit = j < n && self.pairs@[j as int].0@ == varname@;
                    &&& hit ==> self@.contains_key(varname@) && self@[varname@] == view_obj(
                        self.pairs@[j as int].1,
                    )
                    &&& !hit ==> !self@.contains_key(varname@)
                }),
            decreases j,
        {
            if j == 0 {
                proof {
                    assert(self.pairs@.subrange(0, 0) =~= Seq::<(String, Object)>::empty());
                }
                break;
            }
            j = j - 1;
            proof {
                assert(self.pairs@.subrange(0, j + 1).drop_last() =~= self.pairs@.subrange(
                    0,
                    j as int,
                ));
                assert(self.pairs@.subrange(0, j + 1).last() == self.pairs@[j as int]);
            }
            if self.pairs[j].0 == *varname {
                break;
            }
        }
        if j < n {
            let hit = self.pairs[j].0 == *varname;
            if hit {
                return Option::Some(j);
            }
        }
        Option::None
    }

    /// Binds a fresh name.
    pub fn add_variable(&mut self, var: String, value: Object)
        requires
            !old(self)@.contains_key(var@),
        ensures
            final(self)@ == old(self)@.insert(var@, value@),
    {
        let ghost vv = value@;
        self.pairs.push((var, value));
        proof {
            assert(self.pairs@.drop_last() =~= old(self).pairs@);
        }
    }

    /// Rebinds a name that is already bound.
    pub fn set_variable(&mut self, var: String, value: Object)
        requires
            old(self)@.contains_key(var@),
        ensures
            final(self)@ == old(self)@.insert(var@, value@),
    {
        self.pairs.push((var, value));
        proof {
            assert(self.pairs@.drop_last() =~= old(self).pairs@);
        }
    }
}

/// The map after binding each of `fs` in order as a function object.
pub open spec fn insert_functions(
    m: Map<Seq<char>, ObjectV>,
    fs: Seq<(String, Function)>,
) -> Map<Seq<char>, ObjectV>
    decreases fs.len(),
{
    if fs.len() == 0 {
        m
    } else {
        insert_functions(m, fs.drop_last()).insert(
            fs.last().0@,
            ObjectV::Function(crate::data::view_fn(fs.last().1)),
        )
    }
}

proof fn lemma_env_map_congruent(a: Seq<(String, Object)>, b: Seq<(String, Object)>)
    requires
        a.len() == b.len(),
        forall|j: int| 0 <= j < a.len() ==> a[j].0@ == b[j].0@ && view_obj(a[j].1) == view_obj(
            b[j].1,
        ),
    ensures
        env_map(a) == env_map(b),
    decreases a.len(),
{
    if a.len() > 0 {
        lemma_env_map_congruent(a.drop_last(), b.drop_last());
        assert(env_map(a) =~= env_map(b));
    }
}

} // verus!
