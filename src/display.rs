use vstd::prelude::*;
use crate::expr::{lemma_list_view, Exp, ExpModel};
use crate::lexer::push_char;

verus! {

/// A closure that writes a double (given as bits) can be called on any bits
/// and writes one text for each.
pub open spec fn show_ok<G: Fn(u64) -> String>(g: &G) -> bool {
    &&& forall|n: u64| #[trigger] g.requires((n,))
    &&& forall|n: u64, r1: String, r2: String|
        #[trigger] g.ensures((n,), r1) && #[trigger] g.ensures((n,), r2) ==> r1@ == r2@
}

/// The text that such a closure writes for each double.
pub open spec fn show_of<G: Fn(u64) -> String>(g: &G) -> spec_fn(u64) -> Seq<char> {
    |n: u64| (choose|r: String| g.ensures((n,), r))@
}

/// The display form: a symbol in double quotes, a number as `sh` writes it,
/// a list as its elements joined by spaces inside `( ` and ` )`.
pub open spec fn render_model(sh: spec_fn(u64) -> Seq<char>, e: ExpModel) -> Seq<char>
    decreases e, 0int,
{
    match e {
        ExpModel::Symbol(t) => seq!['"'] + t + seq!['"'],
        ExpModel::Number(n) => sh(n),
        ExpModel::List(s) => seq!['(', ' '] + render_items(sh, s, s.len() as int) + seq![' ', ')'],
    }
}

/// The display forms of `s[0]`, ..., `s[n - 1]`, joined by spaces.
pub open spec fn render_items(sh: spec_fn(u64) -> Seq<char>, s: Seq<ExpModel>, n: int) -> Seq<char>
    decreases s, n,
{
    if n <= 0 || n > s.len() {
        Seq::empty()
    } else if n == 1 {
        render_model(sh, s[0])
    } else {
        render_items(sh, s, n - 1) + seq![' '] + render_model(sh, s[n - 1])
    }
}

fn show_number<G: Fn(u64) -> String>(show: &G, n: u64) -> (r: String)
    requires
        show_ok(show),
    ensures
        r@ == show_of(show)(n),
{
    let r = show(n);
    proof {
        let c = choose|x: String| show.ensures((n,), x);
        assert(show.ensures((n,), c));
    }
    r
}

impl Exp {
    /// The display form of the expression; `show` writes each number.
    pub fn render<G: Fn(u64) -> String>(&self, show: &G) -> (r: String)
        requires
            show_ok(show),
        ensures
            r@ == render_model(show_of(show), self@),
        decreases self,
    {
        match self {
            Exp::Symbol(s) => {
                let mut r = String::new();
                push_char(&mut r, '"');
                r.append(s.as_str());
                push_char(&mut r, '"');
                assert(r@ =~= seq!['"'] + s@ + seq!['"']);
                r
            },
            Exp::Number(n) => show_number(show, *n),
            Exp::List(v) => {
                let ghost sh = show_of(show);
                let ghost s = self@->List_0;
                proof {
                    lemma_list_view(*v);
                }
                let mut r = String::new();
                push_char(&mut r, '(');
                push_char(&mut r, ' ');
                let mut i: usize = 0;
                assert(decreases_to!(*self => *v));
                assert(r@ =~= seq!['(', ' '] + render_items(sh, s, 0));
                while i < v.len()
                    invariant
                        show_ok(show),
                        sh == show_of(show),
                        s == self@->List_0,
                        s.len() == v@.len(),
                        forall|j: int| 0 <= j < v@.len() ==> #[trigger] s[j] == v@[j]@,
                        decreases_to!(*self => *v),
                        i <= v.len(),
                        r@ == seq!['(', ' '] + render_items(sh, s, i as int),
                    decreases v.len() - i,
                {
                    proof {
                        vstd::std_specs::vec::axiom_vec_index_decreases(*v, i as int);
                    }
                    let c = v[i].render(show);
                    let ghost before = r@;
                    if i > 0 {
                        push_char(&mut r, ' ');
                    }
                    r.append(c.as_str());
                    assert(s[i as int] == v@[i as int]@);
                    if i == 0 {
                        assert(r@ =~= seq!['(', ' '] + render_items(sh, s, 1));
                    } else {
                        assert(r@ =~= seq!['(', ' '] + render_items(sh, s, i + 1));
                    }
                    i = i + 1;
                }
                push_char(&mut r, ' ');
                push_char(&mut r, ')');
                assert(r@ =~= seq!['(', ' '] + render_items(sh, s, s.len() as int) + seq![' ', ')']);
                r
            },
        }
    }
}

} // verus!
