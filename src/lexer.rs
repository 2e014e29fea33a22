use vstd::prelude::*;
use crate::expr::{ErrorModel, LispError};
use vstd::std_specs::iter::IteratorSpec;

verus! {

/// Where the lexer stands: between tokens or inside a bare literal, or inside
/// a quoted string (right after a backslash, or not).
#[derive(Clone, Copy, Debug, PartialEq, Eq, Structural)]
pub enum LexMode {
    Bare,
    Quoted { escaping: bool },
}

/// The lexer's state: the tokens found so far, the pending buffer and the mode.
pub struct LexModel {
    pub toks: Seq<Seq<char>>,
    pub buf: Seq<char>,
    pub mode: LexMode,
}

/// Space, newline and tab end a bare literal.
pub open spec fn is_separator(c: char) -> bool {
    c == ' ' || c == '\n' || c == '\t'
}

/// The characters of Unicode's White_Space property.
pub open spec fn unicode_white_space(c: char) -> bool {
    ('\u{9}' <= c && c <= '\u{d}') || c == ' ' || c == '\u{85}' || c == '\u{a0}'
        || c == '\u{1680}' || ('\u{2000}' <= c && c <= '\u{200a}') || c == '\u{2028}'
        || c == '\u{2029}' || c == '\u{202f}' || c == '\u{205f}' || c == '\u{3000}'
}

/// The token list after the buffer is flushed: an empty buffer adds nothing.
pub open spec fn flush(toks: Seq<Seq<char>>, buf: Seq<char>) -> Seq<Seq<char>> {
    if buf.len() == 0 {
        toks
    } else {
        toks.push(buf)
    }
}

/// The character that an escape `\c` stands for, if any.
pub open spec fn escaped(c: char) -> Option<char> {
    if c == '"' {
        Some('"')
    } else if c == '\\' {
        Some('\\')
    } else if c == 'n' {
        Some('\n')
    } else {
        None
    }
}

/// One character read in the given state; `Err(c)` for an unknown escape `\c`.
pub open spec fn lex_step(m: LexModel, c: char) -> Result<LexModel, char> {
    match m.mode {
        LexMode::Bare => {
            if c == '(' || c == ')' {
                Ok(LexModel { toks: flush(m.toks, m.buf).push(seq![c]), buf: Seq::empty(), mode: LexMode::Bare })
            } else if is_separator(c) {
                Ok(LexModel { toks: flush(m.toks, m.buf), buf: Seq::empty(), mode: LexMode::Bare })
            } else if c == '"' {
                Ok(LexModel { mode: LexMode::Quoted { escaping: false }, ..m })
            } else if unicode_white_space(c) {
                Ok(m)
            } else {
                Ok(LexModel { buf: m.buf.push(c), ..m })
            }
        },
        LexMode::Quoted { escaping: true } => match escaped(c) {
            Some(e) => Ok(LexModel { buf: m.buf.push(e), mode: LexMode::Quoted { escaping: false }, ..m }),
            None => Err(c),
        },
        LexMode::Quoted { escaping: false } => {
            if c == '"' {
                Ok(LexModel { toks: flush(m.toks, m.buf), buf: Seq::empty(), mode: LexMode::Bare })
            } else if c == '\\' {
                Ok(LexModel { mode: LexMode::Quoted { escaping: true }, ..m })
            } else {
                Ok(LexModel { buf: m.buf.push(c), ..m })
            }
        },
    }
}

/// The state after reading all of `s` from `m`.
pub open spec fn lex_from(m: LexModel, s: Seq<char>) -> Result<LexModel, char>
    decreases s.len(),
{
    if s.len() == 0 {
        Ok(m)
    } else {
        match lex_step(m, s[0]) {
            Ok(m2) => lex_from(m2, s.drop_first()),
            Err(c) => Err(c),
        }
    }
}

pub open spec fn lex_start() -> LexModel {
    LexModel { toks: Seq::empty(), buf: Seq::empty(), mode: LexMode::Bare }
}

/// The tokens of a source text, or the character of its first unknown escape.
/// What is left in the buffer when the text ends is not a token.
pub open spec fn spec_tokens(s: Seq<char>) -> Result<Seq<Seq<char>>, char> {
    match lex_from(lex_start(), s) {
        Ok(m) => Ok(m.toks),
        Err(c) => Err(c),
    }
}

pub open spec fn views(v: Seq<String>) -> Seq<Seq<char>> {
    v.map_values(|t: String| t@)
}

/// Relies on String::push: the character is appended at the end.
#[verifier::external_body]
pub(crate) fn push_char(s: &mut String, c: char)
    ensures
        final(s)@ == old(s)@.push(c),
{
    s.push(c)
}

/// Relies on char::is_whitespace: true exactly for Unicode's White_Space characters.
#[verifier::external_body]
fn is_white_space(c: char) -> (r: bool)
    ensures
        r == unicode_white_space(c),
{
    c.is_whitespace()
}

fn flush_into(toks: &mut Vec<String>, buf: String)
    ensures
        views(final(toks)@) == flush(views(old(toks)@), buf@),
{
    if buf.unicode_len() > 0 {
        toks.push(buf);
        assert(views(final(toks)@) =~= views(old(toks)@).push(buf@));
    }
}

/// Splits a source text into its tokens: parentheses, bare literals and
/// string literals with their escapes resolved. Empty tokens are dropped.
pub fn tokens(content: String) -> (r: Result<Vec<String>, LispError>)
    ensures
        r is Ok <==> spec_tokens(content@) is Ok,
        r is Ok ==> views(r->Ok_0@) == spec_tokens(content@)->Ok_0,
        r is Err ==> r->Err_0@ == ErrorModel::BadEscape(spec_tokens(content@)->Err_0),
{
    let mut toks: Vec<String> = Vec::new();
    let mut buf = String::new();
    let mut mode = LexMode::Bare;
    let mut it = content.chars();
    let ghost s = content@;
    let ghost mut i: int = 0;
    assert(s.skip(0) =~= s);
    assert(views(toks@) =~= Seq::empty());
    loop
        invariant
            0 <= i <= s.len(),
            content@ == s,
            it.obeys_prophetic_iter_laws(),
            it.remaining() == s.skip(i),
            lex_from(lex_start(), s) == lex_from(LexModel { toks: views(toks@), buf: buf@, mode }, s.skip(i)),
        decreases s.len() - i,
    {
        let ghost m = LexModel { toks: views(toks@), buf: buf@, mode };
        let next = it.next();
        let c = match next {
            Some(c) => c,
            None => {
                assert(s.skip(i).len() == 0);
                return Ok(toks);
            },
        };
        assert(s.skip(i)[0] == c);
        assert(s.skip(i).drop_first() =~= s.skip(i + 1));
        match mode {
            LexMode::Bare => {
                if c == '(' || c == ')' {
                    flush_into(&mut toks, buf);
                    let mut p = String::new();
                    push_char(&mut p, c);
                    toks.push(p);
                    buf = String::new();
                    assert(views(toks@) =~= flush(m.toks, m.buf).push(seq![c]));
                } else if c == ' ' || c == '\n' || c == '\t' {
                    flush_into(&mut toks, buf);
                    buf = String::new();
                } else if c == '"' {
                    mode = LexMode::Quoted { escaping: false };
                } else if !is_white_space(c) {
                    push_char(&mut buf, c);
                }
            },
            LexMode::Quoted { escaping } => {
                if escaping {
                    let e = if c == '"' {
                        '"'
                    } else if c == '\\' {
                        '\\'
                    } else if c == 'n' {
                        '\n'
                    } else {
                        assert(lex_step(m, c) == Err::<LexModel, char>(c));
                        return Err(LispError::BadEscape(c));
                    };
                    push_char(&mut buf, e);
                    mode = LexMode::Quoted { escaping: false };
                } else if c == '"' {
                    flush_into(&mut toks, buf);
                    buf = String::new();
                    mode = LexMode::Bare;
                } else if c == '\\' {
                    mode = LexMode::Quoted { escaping: true };
                } else {
                    push_char(&mut buf, c);
                }
            },
        }
        proof {
            i = i + 1;
        }
    }
}

} // verus!
