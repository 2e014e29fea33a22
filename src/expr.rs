use vstd::prelude::*;

verus! {

/// The mathematical value of an expression tree.
pub enum ExpModel {
    Symbol(Seq<char>),
    Number(u64),
    List(Seq<ExpModel>),
}

/// An expression: a symbol, a number (held as the bit pattern of an IEEE-754
/// double) or a list of expressions.
#[derive(Debug, PartialEq)]
pub enum Exp {
    Symbol(String),
    Number(u64),
    List(Vec<Exp>),
}

/// The model of an expression tree.
pub open spec fn model_of(e: Exp) -> ExpModel
    decreases e,
{
    match e {
        Exp::Symbol(s) => ExpModel::Symbol(s@),
        Exp::Number(n) => ExpModel::Number(n),
        Exp::List(v) => ExpModel::List(
            Seq::new(
                v.len() as nat,
                |i: int|
                    if 0 <= i < v.len() {
                        model_of(v[i])
                    } else {
                        ExpModel::Number(0)
                    },
            ),
        ),
    }
}

impl View for Exp {
    type V = ExpModel;

    open spec fn view(&self) -> ExpModel {
        model_of(*self)
    }
}

/// The models of a sequence of expressions.
pub open spec fn models(v: Seq<Exp>) -> Seq<ExpModel> {
    v.map_values(|e: Exp| e@)
}

/// A list expression's model is the list of its elements' models.
pub proof fn lemma_list_view(v: Vec<Exp>)
    ensures
        Exp::List(v)@ == ExpModel::List(models(v@)),
{
    let t = Exp::List(v)@->List_0;
    assert(t.len() == v.len());
    assert forall|i: int| 0 <= i < t.len() implies t[i] == models(v@)[i] by {
        assert(t[i] == v[i]@);
    };
    assert(t =~= models(v@));
}

impl Exp {
    /// A copy of the whole tree.
    pub fn deep_copy(&self) -> (r: Exp)
        ensures
            r@ == self@,
        decreases self,
    {
        match self {
            Exp::Symbol(s) => Exp::Symbol(s.clone()),
            Exp::Number(n) => Exp::Number(*n),
            Exp::List(v) => {
                let mut w: Vec<Exp> = Vec::new();
                assert(decreases_to!(*self => *v));
                let mut i: usize = 0;
                while i < v.len()
                    invariant
                        i <= v.len(),
                        decreases_to!(*self => *v),
                        models(w@) == models(v@).take(i as int),
                    decreases v.len() - i,
                {
                    proof {
                        vstd::std_specs::vec::axiom_vec_index_decreases(*v, i as int);
                        assert(decreases_to!(*self => v[i as int]));
                    }
                    let x = v[i].deep_copy();
                    let ghost before = w@;
                    w.push(x);
                    assert(models(w@) =~= models(before).push(x@));
                    assert(models(v@).take(i + 1) =~= models(v@).take(i as int).push(v@[i as int]@));
                    i = i + 1;
                }
                assert(models(v@).take(v.len() as int) =~= models(v@));
                proof {
                    lemma_list_view(w);
                    lemma_list_view(*v);
                }
                Exp::List(w)
            },
        }
    }
}

impl Exp {
    /// The name of the expression's variant.
    pub fn name(&self) -> (r: &'static str)
        ensures
            r@ == kind_name(self@),
    {
        match self {
            Exp::Number(_) => "Number",
            Exp::Symbol(_) => "Symbol",
            Exp::List(_) => "List",
        }
    }

    /// The symbol's text, or `NotSymbol` with a copy of the expression.
    pub fn get_symbol(&self) -> (r: Result<&String, LispError>)
        ensures
            self@ is Symbol ==> (r matches Ok(s) && s@ == self@->Symbol_0),
            !(self@ is Symbol) ==> (r matches Err(e) && e@ == ErrorModel::NotSymbol(self@)),
    {
        match self {
            Exp::Symbol(s) => Ok(s),
            _ => Err(LispError::NotSymbol(self.deep_copy())),
        }
    }

    /// The number's bits, or `NotNumber` with a copy of the expression.
    pub fn get_number(&self) -> (r: Result<u64, LispError>)
        ensures
            self@ is Number ==> r == Ok::<u64, LispError>(self@->Number_0),
            !(self@ is Number) ==> (r matches Err(e) && e@ == ErrorModel::NotNumber(self@)),
    {
        match self {
            Exp::Number(n) => Ok(*n),
            _ => Err(LispError::NotNumber(self.deep_copy())),
        }
    }
}

/// The name of an expression's variant.
pub open spec fn kind_name(e: ExpModel) -> Seq<char> {
    match e {
        ExpModel::Number(_) => "Number"@,
        ExpModel::Symbol(_) => "Symbol"@,
        ExpModel::List(_) => "List"@,
    }
}

/// What went wrong while reading or evaluating a program.
#[derive(Debug, PartialEq)]
pub enum LispError {
    /// A string literal holds a backslash followed by this character, which
    /// names no escape.
    BadEscape(char),
    /// An expression was expected but no token (or no list element) was left.
    NoToken,
    /// A `)` stands where an expression should begin.
    UnexpectedClose,
    /// The tokens ran out before the `)` that closes a list.
    MissingClose,
    /// An expression of another variant stands where a symbol is needed.
    NotSymbol(Exp),
    /// An expression of another variant stands where a number is needed.
    NotNumber(Exp),
    /// A symbol that names no builtin operation is applied to arguments.
    NotFunction(String),
    /// The sequencing operation was given no argument.
    NothingToSequence,
}

/// The mathematical value of a [`LispError`].
pub enum ErrorModel {
    BadEscape(char),
    NoToken,
    UnexpectedClose,
    MissingClose,
    NotSymbol(ExpModel),
    NotNumber(ExpModel),
    NotFunction(Seq<char>),
    NothingToSequence,
}

impl View for LispError {
    type V = ErrorModel;

    open spec fn view(&self) -> ErrorModel {
        match self {
            LispError::BadEscape(c) => ErrorModel::BadEscape(*c),
            LispError::NoToken => ErrorModel::NoToken,
            LispError::UnexpectedClose => ErrorModel::UnexpectedClose,
            LispError::MissingClose => ErrorModel::MissingClose,
            LispError::NotSymbol(e) => ErrorModel::NotSymbol(e@),
            LispError::NotNumber(e) => ErrorModel::NotNumber(e@),
            LispError::NotFunction(s) => ErrorModel::NotFunction(s@),
            LispError::NothingToSequence => ErrorModel::NothingToSequence,
        }
    }
}

} // verus!
