use vstd::prelude::*;
use crate::expr::{lemma_list_view, models, ErrorModel, Exp, ExpModel, LispError};
use crate::lexer::push_char;

verus! {

/// The two ways the arithmetic operations combine numbers.
#[derive(Clone, Copy, Debug, PartialEq, Eq, Structural)]
pub enum Fold {
    Add,
    Sub,
}

/// The builtin operations.
#[derive(Clone, Copy, Debug, PartialEq, Eq, Structural)]
pub enum Builtin {
    Add,
    Sub,
    Mul,
    Div,
    Print,
    Debug,
    Also,
}

/// The operation that a name stands for, if any.
pub open spec fn builtin_of(n: Seq<char>) -> Option<Builtin> {
    if n == seq!['+'] {
        Some(Builtin::Add)
    } else if n == seq!['-'] {
        Some(Builtin::Sub)
    } else if n == seq!['*'] {
        Some(Builtin::Mul)
    } else if n == seq!['/'] {
        Some(Builtin::Div)
    } else if n == seq!['p', 'r', 'i', 'n', 't'] {
        Some(Builtin::Print)
    } else if n == seq!['\''] {
        Some(Builtin::Debug)
    } else if n == seq![','] {
        Some(Builtin::Also)
    } else {
        None
    }
}

/// How an arithmetic operation combines its operands: `-` subtracts, and
/// `+`, `*` and `/` all add.
pub open spec fn fold_of(b: Builtin) -> Fold {
    if b == Builtin::Sub {
        Fold::Sub
    } else {
        Fold::Add
    }
}

/// The bits of the double `0.0`.
pub const ZERO: u64 = 0;

/// A closure that combines two doubles (as bits) can be called on any
/// operands and gives one result for each.
pub open spec fn arith_ok<F: Fn(Fold, u64, u64) -> u64>(f: &F) -> bool {
    &&& forall|o: Fold, a: u64, b: u64| #[trigger] f.requires((o, a, b))
    &&& forall|o: Fold, a: u64, b: u64, r1: u64, r2: u64|
        #[trigger] f.ensures((o, a, b), r1) && #[trigger] f.ensures((o, a, b), r2) ==> r1 == r2
}

/// The function that such a closure computes.
pub open spec fn arith_of<F: Fn(Fold, u64, u64) -> u64>(f: &F) -> spec_fn(Fold, u64, u64) -> u64 {
    |o: Fold, a: u64, b: u64| choose|r: u64| f.ensures((o, a, b), r)
}

/// The left fold of `xs` onto `acc`; `NotNumber` at the first operand that is
/// no number.
pub open spec fn fold_numbers(ar: spec_fn(Fold, u64, u64) -> u64, op: Fold, acc: u64, xs: Seq<ExpModel>) -> Result<u64, ErrorModel>
    decreases xs.len(),
{
    if xs.len() == 0 {
        Ok(acc)
    } else if xs[0] is Number {
        fold_numbers(ar, op, ar(op, acc, xs[0]->Number_0), xs.drop_first())
    } else {
        Err(ErrorModel::NotNumber(xs[0]))
    }
}

/// An arithmetic operation on its evaluated operands.
pub open spec fn arith(ar: spec_fn(Fold, u64, u64) -> u64, op: Fold, vals: Seq<ExpModel>) -> Result<ExpModel, ErrorModel> {
    if vals.len() == 0 {
        Err(ErrorModel::NoToken)
    } else if !(vals[0] is Number) {
        Err(ErrorModel::NotNumber(vals[0]))
    } else {
        match fold_numbers(ar, op, vals[0]->Number_0, vals.drop_first()) {
            Ok(n) => Ok(ExpModel::Number(n)),
            Err(e) => Err(e),
        }
    }
}

/// Evaluates `e` after the lines `out` were printed: the result, and all the
/// lines printed by then.
pub open spec fn eval(ar: spec_fn(Fold, u64, u64) -> u64, e: ExpModel, out: Seq<ExpModel>) -> (Result<ExpModel, ErrorModel>, Seq<ExpModel>)
    decreases e, 0int,
{
    match e {
        ExpModel::List(s) => {
            if s.len() == 0 {
                (Err(ErrorModel::NoToken), out)
            } else if !(s[0] is Symbol) {
                (Err(ErrorModel::NotSymbol(s[0])), out)
            } else {
                match builtin_of(s[0]->Symbol_0) {
                    None => if s.len() > 1 {
                        (Err(ErrorModel::NotFunction(s[0]->Symbol_0)), out)
                    } else {
                        (Ok(s[0]), out)
                    },
                    Some(Builtin::Debug) => (Ok(ExpModel::Number(ZERO)), out + s.drop_first()),
                    Some(b) => {
                        let (r, o) = eval_args(ar, s, s.len() as int, out);
                        match r {
                            Err(x) => (Err(x), o),
                            Ok(vals) => match b {
                                Builtin::Print => (Ok(ExpModel::Number(ZERO)), o + vals),
                                Builtin::Also => if vals.len() == 0 {
                                    (Err(ErrorModel::NothingToSequence), o)
                                } else {
                                    (Ok(vals.last()), o)
                                },
                                _ => (arith(ar, fold_of(b), vals), o),
                            },
                        }
                    },
                }
            }
        },
        _ => (Ok(e), out),
    }
}

/// Evaluates the arguments `s[1]`, ..., `s[n - 1]` of a call in order,
/// stopping at the first failure.
pub open spec fn eval_args(ar: spec_fn(Fold, u64, u64) -> u64, s: Seq<ExpModel>, n: int, out: Seq<ExpModel>) -> (Result<Seq<ExpModel>, ErrorModel>, Seq<ExpModel>)
    decreases s, n,
{
    if n <= 1 || n > s.len() {
        (Ok(Seq::empty()), out)
    } else {
        let (r, o) = eval_args(ar, s, n - 1, out);
        match r {
            Err(x) => (Err(x), o),
            Ok(vs) => {
                let (v, o2) = eval(ar, s[n - 1], o);
                match v {
                    Ok(v) => (Ok(vs.push(v)), o2),
                    Err(x) => (Err(x), o2),
                }
            },
        }
    }
}

/// The names of the builtin operations, in the order the registry holds them.
pub open spec fn builtin_table() -> Seq<(Seq<char>, Builtin)> {
    seq![
        (seq!['+'], Builtin::Add),
        (seq!['-'], Builtin::Sub),
        (seq!['*'], Builtin::Mul),
        (seq!['/'], Builtin::Div),
        (seq!['p', 'r', 'i', 'n', 't'], Builtin::Print),
        (seq!['\''], Builtin::Debug),
        (seq![','], Builtin::Also),
    ]
}

pub open spec fn entries(v: Seq<(String, Builtin)>) -> Seq<(Seq<char>, Builtin)> {
    v.map_values(|p: (String, Builtin)| (p.0@, p.1))
}

/// The model of an evaluation result.
pub open spec fn result_model(r: Result<Exp, LispError>) -> Result<ExpModel, ErrorModel> {
    match r {
        Ok(e) => Ok(e@),
        Err(x) => Err(x@),
    }
}

/// The model of the result of evaluating several expressions.
pub open spec fn results_model(r: Result<Vec<Exp>, LispError>) -> Result<Seq<ExpModel>, ErrorModel> {
    match r {
        Ok(v) => Ok(models(v@)),
        Err(x) => Err(x@),
    }
}

fn single(c: char) -> (r: String)
    ensures
        r@ == seq![c],
{
    let mut s = String::new();
    push_char(&mut s, c);
    assert(s@ =~= seq![c]);
    s
}

/// The registry: each builtin operation under its name.
pub fn builtin_funcs() -> (r: Vec<(String, Builtin)>)
    ensures
        entries(r@) == builtin_table(),
{
    let mut print = String::new();
    push_char(&mut print, 'p');
    push_char(&mut print, 'r');
    push_char(&mut print, 'i');
    push_char(&mut print, 'n');
    push_char(&mut print, 't');
    assert(print@ =~= seq!['p', 'r', 'i', 'n', 't']);
    let mut funcs: Vec<(String, Builtin)> = Vec::new();
    funcs.push((single('+'), Builtin::Add));
    funcs.push((single('-'), Builtin::Sub));
    funcs.push((single('*'), Builtin::Mul));
    funcs.push((single('/'), Builtin::Div));
    funcs.push((print, Builtin::Print));
    funcs.push((single('\''), Builtin::Debug));
    funcs.push((single(','), Builtin::Also));
    assert(entries(funcs@) =~= builtin_table());
    funcs
}

/// Applies the caller's arithmetic to two doubles (as bits).
fn combine<F: Fn(Fold, u64, u64) -> u64>(num: &F, o: Fold, a: u64, b: u64) -> (r: u64)
    requires
        arith_ok(num),
    ensures
        r == arith_of(num)(o, a, b),
{
    let r = num(o, a, b);
    proof {
        let c = choose|x: u64| num.ensures((o, a, b), x);
        assert(num.ensures((o, a, b), c));
    }
    r
}

/// Each name in the table stands for the operation beside it.
proof fn lemma_table_names()
    ensures
        builtin_table().len() == 7,
        forall|i: int| 0 <= i < 7 ==> builtin_of(#[trigger] builtin_table()[i].0) == Some(builtin_table()[i].1),
{
    assert(builtin_of(seq!['+']) == Some(Builtin::Add));
    assert(seq!['-'][0] != seq!['+'][0]);
    assert(builtin_of(seq!['-']) == Some(Builtin::Sub));
    assert(seq!['*'][0] != seq!['+'][0] && seq!['*'][0] != seq!['-'][0]);
    assert(builtin_of(seq!['*']) == Some(Builtin::Mul));
    assert(seq!['/'][0] != seq!['+'][0] && seq!['/'][0] != seq!['-'][0] && seq!['/'][0] != seq!['*'][0]);
    assert(builtin_of(seq!['/']) == Some(Builtin::Div));
    let p = seq!['p', 'r', 'i', 'n', 't'];
    assert(p.len() != seq!['+'].len());
    assert(builtin_of(p) == Some(Builtin::Print));
    let q = seq!['\''];
    assert(q[0] != seq!['+'][0] && q[0] != seq!['-'][0] && q[0] != seq!['*'][0] && q[0] != seq!['/'][0]);
    assert(q.len() != p.len());
    assert(builtin_of(q) == Some(Builtin::Debug));
    let c = seq![','];
    assert(c[0] != seq!['+'][0] && c[0] != seq!['-'][0] && c[0] != seq!['*'][0] && c[0] != seq!['/'][0]);
    assert(c.len() != p.len() && c[0] != q[0]);
    assert(builtin_of(c) == Some(Builtin::Also));
    assert forall|i: int| 0 <= i < 7 implies builtin_of(#[trigger] builtin_table()[i].0) == Some(builtin_table()[i].1) by {
        if i == 0 {
        } else if i == 1 {
        } else if i == 2 {
        } else if i == 3 {
        } else if i == 4 {
        } else if i == 5 {
        } else {
        }
    };
}

/// A program: its root expression and the registry it runs against.
pub struct LispInfo {
    pub functions: Vec<(String, Builtin)>,
    pub root: Exp,
}

impl LispInfo {
    /// The registry holds exactly the builtin operations.
    pub open spec fn wf(&self) -> bool {
        entries(self.functions@) == builtin_table()
    }

    /// A program with the given root and the builtin registry.
    pub fn new(root: Exp) -> (r: LispInfo)
        ensures
            r.wf(),
            r.root@ == root@,
    {
        LispInfo { functions: builtin_funcs(), root }
    }

    /// The operation registered under `name`, if any.
    pub fn lookup(&self, name: &String) -> (r: Option<Builtin>)
        requires
            self.wf(),
        ensures
            r == builtin_of(name@),
    {
        let mut i: usize = 0;
        while i < self.functions.len()
            invariant
                self.wf(),
                i <= self.functions@.len(),
                forall|j: int| 0 <= j < i ==> builtin_table()[j].0 != name@,
            decreases self.functions.len() - i,
        {
            assert(entries(self.functions@)[i as int] == (self.functions@[i as int].0@, self.functions@[i as int].1));
            if self.functions[i].0 == *name {
                proof {
                    lemma_table_names();
                }
                return Some(self.functions[i].1);
            }
            i = i + 1;
        }
        proof {
            lemma_table_names();
        }
        assert(entries(self.functions@).len() == self.functions@.len());
        assert(builtin_table()[0].0 != name@);
        assert(builtin_table()[1].0 != name@);
        assert(builtin_table()[2].0 != name@);
        assert(builtin_table()[3].0 != name@);
        assert(builtin_table()[4].0 != name@);
        assert(builtin_table()[5].0 != name@);
        assert(builtin_table()[6].0 != name@);
        None
    }

    /// Evaluates an expression. Symbols and numbers stand for themselves; a
    /// list calls the operation that its head names. Lines printed along the
    /// way are appended to `out`; `num` combines two doubles given as bits.
    pub fn value<F: Fn(Fold, u64, u64) -> u64>(&self, vl: &Exp, num: &F, out: &mut Vec<Exp>) -> (r: Result<Exp, LispError>)
        requires
            self.wf(),
            arith_ok(num),
        ensures
            (result_model(r), models(final(out)@)) == eval(arith_of(num), vl@, models(old(out)@)),
        decreases vl, 0int,
    {
        match vl {
            Exp::List(stuff) => {
                proof {
                    lemma_list_view(*stuff);
                }
                if stuff.len() == 0 {
                    return Err(LispError::NoToken);
                }
                let car = &stuff[0];
                let car_str = match car.get_symbol() {
                    Ok(s) => s,
                    Err(e) => {
                        return Err(e);
                    },
                };
                match self.lookup(car_str) {
                    Some(b) => self.exec(b, stuff, num, out),
                    None => {
                        if stuff.len() > 1 {
                            Err(LispError::NotFunction(car_str.clone()))
                        } else {
                            Ok(car.deep_copy())
                        }
                    },
                }
            },
            _ => Ok(vl.deep_copy()),
        }
    }

    /// Runs a builtin operation on the call `list` (head included).
    pub fn exec<F: Fn(Fold, u64, u64) -> u64>(&self, b: Builtin, list: &Vec<Exp>, num: &F, out: &mut Vec<Exp>) -> (r: Result<Exp, LispError>)
        requires
            self.wf(),
            arith_ok(num),
            list@.len() > 0,
            list@[0]@ is Symbol,
            builtin_of(list@[0]@->Symbol_0) == Some(b),
        ensures
            (result_model(r), models(final(out)@)) == eval(arith_of(num), Exp::List(*list)@, models(old(out)@)),
        decreases list, 4int,
    {
        proof {
            lemma_list_view(*list);
        }
        match b {
            Builtin::Add => lisp_add(self, list, num, out),
            Builtin::Sub => lisp_sub(self, list, num, out),
            Builtin::Mul => lisp_mul(self, list, num, out),
            Builtin::Div => lisp_div(self, list, num, out),
            Builtin::Print => lisp_print(self, list, num, out),
            Builtin::Debug => lisp_debug(self, list, out),
            Builtin::Also => lisp_also(self, list, num, out),
        }
    }

    /// Evaluates the root expression.
    pub fn run<F: Fn(Fold, u64, u64) -> u64>(&self, num: &F, out: &mut Vec<Exp>) -> (r: Result<Exp, LispError>)
        requires
            self.wf(),
            arith_ok(num),
        ensures
            (result_model(r), models(final(out)@)) == eval(arith_of(num), self.root@, models(old(out)@)),
    {
        self.value(&self.root, num, out)
    }
}

/// Once evaluating the arguments fails, evaluating more of them fails the same way.
proof fn lemma_args_err_stays(ar: spec_fn(Fold, u64, u64) -> u64, s: Seq<ExpModel>, n: int, m: int, out: Seq<ExpModel>)
    requires
        1 <= n <= m <= s.len(),
        eval_args(ar, s, n, out).0 is Err,
    ensures
        eval_args(ar, s, m, out) == eval_args(ar, s, n, out),
    decreases m - n,
{
    if m > n {
        lemma_args_err_stays(ar, s, n, m - 1, out);
    }
}

/// Evaluates the arguments of the call `list` (all but its head) in order.
pub fn eval_all<F: Fn(Fold, u64, u64) -> u64>(env: &LispInfo, list: &Vec<Exp>, num: &F, out: &mut Vec<Exp>) -> (r: Result<Vec<Exp>, LispError>)
    requires
        env.wf(),
        arith_ok(num),
    ensures
        (results_model(r), models(final(out)@)) == eval_args(arith_of(num), models(list@), list@.len() as int, models(old(out)@)),
    decreases list, 1int,
{
    let ghost ar = arith_of(num);
    let ghost s = models(list@);
    let ghost out0 = models(out@);
    let mut vals: Vec<Exp> = Vec::new();
    let mut i: usize = 1;
    assert(models(vals@) =~= Seq::empty());
    if list.len() <= 1 {
        return Ok(vals);
    }
    while i < list.len()
        invariant
            env.wf(),
            arith_ok(num),
            ar == arith_of(num),
            s == models(list@),
            1 <= i <= list@.len(),
            out0 == models(old(out)@),
            eval_args(ar, s, i as int, out0) == (Ok::<Seq<ExpModel>, ErrorModel>(models(vals@)), models(out@)),
        decreases list@.len() - i,
    {
        proof {
            vstd::std_specs::vec::axiom_vec_index_decreases(*list, i as int);
        }
        assert(s[i as int] == list@[i as int]@);
        match env.value(&list[i], num, out) {
            Ok(v) => {
                let ghost before = vals@;
                vals.push(v);
                assert(models(vals@) =~= models(before).push(v@));
            },
            Err(e) => {
                proof {
                    lemma_args_err_stays(ar, s, i + 1, list@.len() as int, out0);
                }
                return Err(e);
            },
        }
        i = i + 1;
    }
    Ok(vals)
}

/// Folds the evaluated arguments of `list` with `op`: the first must be a
/// number and each other one is combined onto it in turn.
fn lisp_fold<F: Fn(Fold, u64, u64) -> u64>(env: &LispInfo, op: Fold, list: &Vec<Exp>, num: &F, out: &mut Vec<Exp>) -> (r: Result<Exp, LispError>)
    requires
        env.wf(),
        arith_ok(num),
    ensures
        match eval_args(arith_of(num), models(list@), list@.len() as int, models(old(out)@)) {
            (Err(x), o) => result_model(r) == Err::<ExpModel, ErrorModel>(x) && models(final(out)@) == o,
            (Ok(vals), o) => result_model(r) == arith(arith_of(num), op, vals) && models(final(out)@) == o,
        },
    decreases list, 2int,
{
    let cont = match eval_all(env, list, num, out) {
        Ok(c) => c,
        Err(e) => {
            return Err(e);
        },
    };
    let ghost ar = arith_of(num);
    let ghost vals = models(cont@);
    let ghost printed = out@;
    let ghost done = eval_args(ar, models(list@), list@.len() as int, models(old(out)@));
    assert(done == (Ok::<Seq<ExpModel>, ErrorModel>(vals), models(printed)));
    if cont.len() == 0 {
        return Err(LispError::NoToken);
    }
    let mut acc = match cont[0].get_number() {
        Ok(n) => n,
        Err(e) => {
            return Err(e);
        },
    };
    let mut i: usize = 1;
    assert(vals.drop_first() =~= vals.skip(1));
    while i < cont.len()
        invariant
            arith_ok(num),
            ar == arith_of(num),
            vals == models(cont@),
            1 <= i <= cont@.len(),
            vals[0] is Number,
            out@ == printed,
            done == eval_args(ar, models(list@), list@.len() as int, models(old(out)@)),
            done == (Ok::<Seq<ExpModel>, ErrorModel>(vals), models(printed)),
            fold_numbers(ar, op, vals[0]->Number_0, vals.drop_first()) == fold_numbers(ar, op, acc, vals.skip(i as int)),
        decreases cont@.len() - i,
    {
        assert(vals.skip(i as int)[0] == vals[i as int]);
        assert(vals[i as int] == cont@[i as int]@);
        assert(vals.skip(i as int).drop_first() =~= vals.skip(i + 1));
        let n = match cont[i].get_number() {
            Ok(n) => n,
            Err(e) => {
                return Err(e);
            },
        };
        acc = combine(num, op, acc, n);
        i = i + 1;
    }
    assert(vals.skip(i as int).len() == 0);
    Ok(Exp::Number(acc))
}

/// `+`: adds the evaluated arguments.
fn lisp_add<F: Fn(Fold, u64, u64) -> u64>(env: &LispInfo, list: &Vec<Exp>, num: &F, out: &mut Vec<Exp>) -> (r: Result<Exp, LispError>)
    requires
        env.wf(),
        arith_ok(num),
    ensures
        match eval_args(arith_of(num), models(list@), list@.len() as int, models(old(out)@)) {
            (Err(x), o) => result_model(r) == Err::<ExpModel, ErrorModel>(x) && models(final(out)@) == o,
            (Ok(vals), o) => result_model(r) == arith(arith_of(num), Fold::Add, vals) && models(final(out)@) == o,
        },
    decreases list, 3int,
{
    lisp_fold(env, Fold::Add, list, num, out)
}

/// `-`: subtracts the other evaluated arguments from the first.
fn lisp_sub<F: Fn(Fold, u64, u64) -> u64>(env: &LispInfo, list: &Vec<Exp>, num: &F, out: &mut Vec<Exp>) -> (r: Result<Exp, LispError>)
    requires
        env.wf(),
        arith_ok(num),
    ensures
        match eval_args(arith_of(num), models(list@), list@.len() as int, models(old(out)@)) {
            (Err(x), o) => result_model(r) == Err::<ExpModel, ErrorModel>(x) && models(final(out)@) == o,
            (Ok(vals), o) => result_model(r) == arith(arith_of(num), Fold::Sub, vals) && models(final(out)@) == o,
        },
    decreases list, 3int,
{
    lisp_fold(env, Fold::Sub, list, num, out)
}

/// `*`: combines the evaluated arguments by addition, as the language has
/// always done.
fn lisp_mul<F: Fn(Fold, u64, u64) -> u64>(env: &LispInfo, list: &Vec<Exp>, num: &F, out: &mut Vec<Exp>) -> (r: Result<Exp, LispError>)
    requires
        env.wf(),
        arith_ok(num),
    ensures
        match eval_args(arith_of(num), models(list@), list@.len() as int, models(old(out)@)) {
            (Err(x), o) => result_model(r) == Err::<ExpModel, ErrorModel>(x) && models(final(out)@) == o,
            (Ok(vals), o) => result_model(r) == arith(arith_of(num), Fold::Add, vals) && models(final(out)@) == o,
        },
    decreases list, 3int,
{
    lisp_fold(env, Fold::Add, list, num, out)
}

/// `/`: combines the evaluated arguments by addition, as the language has
/// always done.
fn lisp_div<F: Fn(Fold, u64, u64) -> u64>(env: &LispInfo, list: &Vec<Exp>, num: &F, out: &mut Vec<Exp>) -> (r: Result<Exp, LispError>)
    requires
        env.wf(),
        arith_ok(num),
    ensures
        match eval_args(arith_of(num), models(list@), list@.len() as int, models(old(out)@)) {
            (Err(x), o) => result_model(r) == Err::<ExpModel, ErrorModel>(x) && models(final(out)@) == o,
            (Ok(vals), o) => result_model(r) == arith(arith_of(num), Fold::Add, vals) && models(final(out)@) == o,
        },
    decreases list, 3int,
{
    lisp_fold(env, Fold::Add, list, num, out)
}

/// `'`: prints the arguments as written, without evaluating them.
fn lisp_debug(_env: &LispInfo, list: &Vec<Exp>, out: &mut Vec<Exp>) -> (r: Result<Exp, LispError>)
    ensures
        r matches Ok(e) && e@ == ExpModel::Number(ZERO),
        list@.len() > 0 ==> models(final(out)@) == models(old(out)@) + models(list@).drop_first(),
        list@.len() == 0 ==> final(out)@ == old(out)@,
{
    let ghost out0 = models(out@);
    let mut i: usize = 1;
    if list.len() == 0 {
        return Ok(Exp::Number(ZERO));
    }
    assert(models(list@).drop_first().take(0) =~= Seq::empty());
    assert(out0 + Seq::empty() =~= out0);
    while i < list.len()
        invariant
            1 <= i <= list@.len(),
            models(out@) == out0 + models(list@).drop_first().take(i - 1),
        decreases list@.len() - i,
    {
        let x = list[i].deep_copy();
        let ghost before = out@;
        out.push(x);
        assert(models(out@) =~= models(before).push(x@));
        assert(models(list@).drop_first().take(i as int) =~= models(list@).drop_first().take(i - 1).push(list@[i as int]@));
        i = i + 1;
    }
    assert(models(list@).drop_first().take(i - 1) =~= models(list@).drop_first());
    Ok(Exp::Number(ZERO))
}

/// `print`: evaluates the arguments and prints each.
fn lisp_print<F: Fn(Fold, u64, u64) -> u64>(env: &LispInfo, list: &Vec<Exp>, num: &F, out: &mut Vec<Exp>) -> (r: Result<Exp, LispError>)
    requires
        env.wf(),
        arith_ok(num),
    ensures
        match eval_args(arith_of(num), models(list@), list@.len() as int, models(old(out)@)) {
            (Err(x), o) => result_model(r) == Err::<ExpModel, ErrorModel>(x) && models(final(out)@) == o,
            (Ok(vals), o) => result_model(r) == Ok::<ExpModel, ErrorModel>(ExpModel::Number(ZERO)) && models(final(out)@) == o + vals,
        },
    decreases list, 3int,
{
    let mut cont = match eval_all(env, list, num, out) {
        Ok(c) => c,
        Err(e) => {
            return Err(e);
        },
    };
    let ghost o = models(out@);
    let ghost vals = models(cont@);
    out.append(&mut cont);
    assert(models(out@) =~= o + vals);
    Ok(Exp::Number(ZERO))
}

/// `,`: evaluates the arguments in order and gives the last result.
fn lisp_also<F: Fn(Fold, u64, u64) -> u64>(env: &LispInfo, list: &Vec<Exp>, num: &F, out: &mut Vec<Exp>) -> (r: Result<Exp, LispError>)
    requires
        env.wf(),
        arith_ok(num),
    ensures
        match eval_args(arith_of(num), models(list@), list@.len() as int, models(old(out)@)) {
            (Err(x), o) => result_model(r) == Err::<ExpModel, ErrorModel>(x) && models(final(out)@) == o,
            (Ok(vals), o) => models(final(out)@) == o && if vals.len() == 0 {
                result_model(r) == Err::<ExpModel, ErrorModel>(ErrorModel::NothingToSequence)
            } else {
                result_model(r) == Ok::<ExpModel, ErrorModel>(vals.last())
            },
        },
    decreases list, 3int,
{
    let mut ev = match eval_all(env, list, num, out) {
        Ok(c) => c,
        Err(e) => {
            return Err(e);
        },
    };
    match ev.pop() {
        Some(e) => Ok(e),
        None => Err(LispError::NothingToSequence),
    }
}

} // verus!
