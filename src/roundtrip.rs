use vstd::prelude::*;
use crate::display::render_model;
use crate::expr::ExpModel;
use crate::lexer::{flush, is_separator, lex_from, lex_start, lex_step, spec_tokens, unicode_white_space, LexMode, LexModel};
use crate::parser::{is_close, is_open, parse_at};

verus! {

/// A character that a bare literal keeps.
pub open spec fn plain(c: char) -> bool {
    c != '(' && c != ')' && c != '"' && !is_separator(c) && !unicode_white_space(c)
}

/// A character that a string literal keeps as it is.
pub open spec fn quotable(c: char) -> bool {
    c != '"' && c != '\\'
}

proof fn lemma_lex_bare(m: LexModel, t: Seq<char>, rest: Seq<char>)
    requires
        m.mode == LexMode::Bare,
        forall|i: int| 0 <= i < t.len() ==> plain(#[trigger] t[i]),
    ensures
        lex_from(m, t + rest) == lex_from(LexModel { buf: m.buf + t, ..m }, rest),
    decreases t.len(),
{
    if t.len() == 0 {
        assert(t + rest =~= rest);
        assert(m.buf + t =~= m.buf);
    } else {
        let m2 = LexModel { buf: m.buf.push(t[0]), ..m };
        assert((t + rest)[0] == t[0]);
        assert((t + rest).drop_first() =~= t.drop_first() + rest);
        lemma_lex_bare(m2, t.drop_first(), rest);
        assert(m2.buf + t.drop_first() =~= m.buf + t);
    }
}

proof fn lemma_lex_quoted(m: LexModel, t: Seq<char>, rest: Seq<char>)
    requires
        m.mode == (LexMode::Quoted { escaping: false }),
        forall|i: int| 0 <= i < t.len() ==> quotable(#[trigger] t[i]),
    ensures
        lex_from(m, t + rest) == lex_from(LexModel { buf: m.buf + t, ..m }, rest),
    decreases t.len(),
{
    if t.len() == 0 {
        assert(t + rest =~= rest);
        assert(m.buf + t =~= m.buf);
    } else {
        let m2 = LexModel { buf: m.buf.push(t[0]), ..m };
        assert((t + rest)[0] == t[0]);
        assert((t + rest).drop_first() =~= t.drop_first() + rest);
        lemma_lex_quoted(m2, t.drop_first(), rest);
        assert(m2.buf + t.drop_first() =~= m.buf + t);
    }
}

/// A symbol printed on a line of its own reads back as the same symbol: the
/// line is one token, its text, and that token (which reads as no double)
/// parses to the symbol. This holds for a non-empty text other than `(` and
/// `)` with no double quote and no backslash.
pub proof fn lemma_symbol_round_trip(sh: spec_fn(u64) -> Seq<char>, t: Seq<char>)
    requires
        t.len() > 0,
        !is_open(t),
        !is_close(t),
        forall|i: int| 0 <= i < t.len() ==> quotable(#[trigger] t[i]),
    ensures
        spec_tokens(render_model(sh, ExpModel::Symbol(t)) + seq!['\n']) == Ok::<Seq<Seq<char>>, char>(seq![t]),
        parse_at(seq![t], seq![None::<u64>], 0) == Ok::<(ExpModel, int), crate::expr::ErrorModel>((ExpModel::Symbol(t), 1int)),
{
    let line = render_model(sh, ExpModel::Symbol(t)) + seq!['\n'];
    let s0 = lex_start();
    let q = LexModel { mode: LexMode::Quoted { escaping: false }, ..s0 };
    let tail = seq!['"', '\n'];
    assert(line =~= seq!['"'] + (t + tail));
    assert(line[0] == '"');
    assert(line.drop_first() =~= t + tail);
    assert(lex_step(s0, '"') == Ok::<LexModel, char>(q));
    assert(lex_from(s0, line) == lex_from(q, t + tail));
    lemma_lex_quoted(q, t, tail);
    let full = LexModel { buf: q.buf + t, ..q };
    assert(q.buf + t =~= t);
    let closed = LexModel { toks: seq![t], buf: Seq::empty(), mode: LexMode::Bare };
    assert(flush(full.toks, full.buf) =~= seq![t]);
    assert(lex_step(full, '"') == Ok::<LexModel, char>(closed));
    assert(tail.drop_first() =~= seq!['\n']);
    assert(lex_step(closed, '\n') == Ok::<LexModel, char>(closed));
    assert(seq!['\n'].drop_first() =~= Seq::<char>::empty());
    assert(seq!['\n'][0] == '\n');
    assert(lex_from(closed, Seq::<char>::empty()) == Ok::<LexModel, char>(closed));
    assert(lex_from(closed, seq!['\n']) == Ok::<LexModel, char>(closed));
    assert(lex_from(full, tail) == Ok::<LexModel, char>(closed));
}

/// A number printed on a line of its own reads back as the same number,
/// where its written form is non-empty and made of plain characters: the line
/// is one token, that text, and that token, read as the same double, parses
/// to the number.
pub proof fn lemma_number_round_trip(sh: spec_fn(u64) -> Seq<char>, n: u64)
    requires
        sh(n).len() > 0,
        forall|i: int| 0 <= i < sh(n).len() ==> plain(#[trigger] sh(n)[i]),
        !is_open(sh(n)),
        !is_close(sh(n)),
    ensures
        spec_tokens(render_model(sh, ExpModel::Number(n)) + seq!['\n']) == Ok::<Seq<Seq<char>>, char>(seq![sh(n)]),
        parse_at(seq![sh(n)], seq![Some(n)], 0) == Ok::<(ExpModel, int), crate::expr::ErrorModel>((ExpModel::Number(n), 1int)),
{
    let t = sh(n);
    let s0 = lex_start();
    let tail = seq!['\n'];
    assert(render_model(sh, ExpModel::Number(n)) + tail == t + tail);
    lemma_lex_bare(s0, t, tail);
    let full = LexModel { buf: s0.buf + t, ..s0 };
    assert(s0.buf + t =~= t);
    let done = LexModel { toks: seq![t], buf: Seq::empty(), mode: LexMode::Bare };
    assert(flush(full.toks, full.buf) =~= seq![t]);
    assert(lex_step(full, '\n') == Ok::<LexModel, char>(done));
    assert(tail.drop_first() =~= Seq::<char>::empty());
    assert(tail[0] == '\n');
    assert(lex_from(done, Seq::<char>::empty()) == Ok::<LexModel, char>(done));
    assert(lex_from(full, tail) == Ok::<LexModel, char>(done));
}

} // verus!
