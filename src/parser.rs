use vstd::prelude::*;
use crate::expr::{lemma_list_view, models, ErrorModel, Exp, ExpModel, LispError};
use crate::lexer::views;

verus! {

pub open spec fn is_open(t: Seq<char>) -> bool {
    t == seq!['(']
}

pub open spec fn is_close(t: Seq<char>) -> bool {
    t == seq![')']
}

/// An atom: a number where the token reads as a double (with that double's
/// bits), else a symbol holding the token's text.
pub open spec fn atom(t: Seq<char>, n: Option<u64>) -> ExpModel {
    match n {
        Some(b) => ExpModel::Number(b),
        None => ExpModel::Symbol(t),
    }
}

/// The expression that begins at token `pos`, and the position after it.
/// `ns[i]` is what token `i` reads as a double, if it reads as one.
pub open spec fn parse_at(ts: Seq<Seq<char>>, ns: Seq<Option<u64>>, pos: int) -> Result<(ExpModel, int), ErrorModel>
    decreases ts.len() - pos, 0int,
{
    if pos < 0 || pos >= ts.len() {
        Err(ErrorModel::NoToken)
    } else if is_open(ts[pos]) {
        seq_at(ts, ns, pos + 1, Seq::empty())
    } else if is_close(ts[pos]) {
        Err(ErrorModel::UnexpectedClose)
    } else {
        Ok((atom(ts[pos], ns[pos]), pos + 1))
    }
}

/// The rest of a list whose elements so far are `acc`, read from token `pos`
/// up to and including its closing `)`.
pub open spec fn seq_at(ts: Seq<Seq<char>>, ns: Seq<Option<u64>>, pos: int, acc: Seq<ExpModel>) -> Result<(ExpModel, int), ErrorModel>
    decreases ts.len() - pos, 1int,
{
    if pos < 0 || pos >= ts.len() {
        Err(ErrorModel::MissingClose)
    } else if is_close(ts[pos]) {
        Ok((ExpModel::List(acc), pos + 1))
    } else {
        match parse_at(ts, ns, pos) {
            Err(e) => Err(e),
            Ok((e, next)) => if next <= pos || next > ts.len() {
                Err(ErrorModel::MissingClose)
            } else {
                seq_at(ts, ns, next, acc.push(e))
            },
        }
    }
}

fn is_char_token(t: &String, c: char) -> (r: bool)
    ensures
        r == (t@ == seq![c]),
{
    let s = t.as_str();
    if s.unicode_len() == 1 {
        let d = s.get_char(0);
        if d == c {
            assert(t@ =~= seq![c]);
        }
        d == c
    } else {
        false
    }
}

/// The atom for one token, given what the token reads as a double, if anything.
pub fn parse_atom(token: &String, number: Option<u64>) -> (r: Exp)
    ensures
        r@ == atom(token@, number),
{
    match number {
        Some(b) => Exp::Number(b),
        None => Exp::Symbol(token.clone()),
    }
}

fn parse_from(tokens: &[String], numbers: &[Option<u64>], pos: usize) -> (r: Result<(Exp, usize), LispError>)
    requires
        numbers@.len() == tokens@.len(),
    ensures
        match parse_at(views(tokens@), numbers@, pos as int) {
            Ok((e, next)) => r matches Ok((x, n)) && x@ == e && n == next && pos < n <= tokens@.len(),
            Err(e) => r matches Err(x) && x@ == e,
        },
    decreases tokens@.len() - pos, 0int,
{
    let ghost ts = views(tokens@);
    if pos >= tokens.len() {
        return Err(LispError::NoToken);
    }
    let t = &tokens[pos];
    assert(ts[pos as int] == t@);
    if is_char_token(t, '(') {
        read_seq(tokens, numbers, pos + 1)
    } else if is_char_token(t, ')') {
        Err(LispError::UnexpectedClose)
    } else {
        Ok((parse_atom(t, numbers[pos]), pos + 1))
    }
}

fn read_seq(tokens: &[String], numbers: &[Option<u64>], pos: usize) -> (r: Result<(Exp, usize), LispError>)
    requires
        numbers@.len() == tokens@.len(),
    ensures
        match seq_at(views(tokens@), numbers@, pos as int, Seq::empty()) {
            Ok((e, next)) => r matches Ok((x, n)) && x@ == e && n == next && pos < n <= tokens@.len(),
            Err(e) => r matches Err(x) && x@ == e,
        },
    decreases tokens@.len() - pos, 1int,
{
    let ghost ts = views(tokens@);
    let mut res: Vec<Exp> = Vec::new();
    let mut cur = pos;
    assert(models(res@) =~= Seq::empty());
    loop
        invariant
            numbers@.len() == tokens@.len(),
            ts == views(tokens@),
            pos <= cur,
            seq_at(ts, numbers@, pos as int, Seq::empty()) == seq_at(ts, numbers@, cur as int, models(res@)),
        decreases tokens@.len() - cur,
    {
        if cur >= tokens.len() {
            return Err(LispError::MissingClose);
        }
        assert(ts[cur as int] == tokens@[cur as int]@);
        if is_char_token(&tokens[cur], ')') {
            proof {
                lemma_list_view(res);
            }
            return Ok((Exp::List(res), cur + 1));
        }
        match parse_from(tokens, numbers, cur) {
            Err(e) => {
                return Err(e);
            },
            Ok((e, next)) => {
                let ghost before = res@;
                res.push(e);
                assert(models(res@) =~= models(before).push(e@));
                cur = next;
            },
        }
    }
}

/// Reads the expression at the front of `tokens` and returns it with the
/// number of tokens it took. `numbers[i]` is what `tokens[i]` reads as a
/// double (its bits), if it reads as one.
pub fn parse(tokens: &[String], numbers: &[Option<u64>]) -> (r: Result<(Exp, usize), LispError>)
    requires
        numbers@.len() == tokens@.len(),
    ensures
        match parse_at(views(tokens@), numbers@, 0) {
            Ok((e, next)) => r matches Ok((x, n)) && x@ == e && n == next && 0 < n <= tokens@.len(),
            Err(e) => r matches Err(x) && x@ == e,
        },
{
    parse_from(tokens, numbers, 0)
}

} // verus!
