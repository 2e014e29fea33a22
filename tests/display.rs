use tinylisp::expr::{Exp, LispError};
use tinylisp::lexer::tokens;
use tinylisp::parser::parse;

fn show(n: u64) -> String {
    format!("{}", f64::from_bits(n))
}

fn num(x: f64) -> Exp {
    Exp::Number(x.to_bits())
}

fn sym(s: &str) -> Exp {
    Exp::Symbol(s.to_string())
}

fn read_back(line: String) -> Exp {
    let ts = tokens(line).unwrap();
    let ns: Vec<Option<u64>> = ts.iter().map(|t| t.parse::<f64>().ok().map(f64::to_bits)).collect();
    let (e, used) = parse(&ts, &ns).unwrap();
    assert_eq!(used, ts.len());
    e
}

#[test]
fn render_atoms() {
    assert_eq!(sym("abc").render(&show), "\"abc\"");
    assert_eq!(num(2.5).render(&show), "2.5");
}

#[test]
fn render_lists() {
    let e = Exp::List(vec![sym("+"), num(1.0), Exp::List(vec![num(2.0)])]);
    assert_eq!(e.render(&show), "( \"+\" 1 ( 2 ) )");
    assert_eq!(Exp::List(vec![]).render(&show), "(  )");
}

#[test]
fn round_trip_leaves() {
    for e in [num(1.0), num(-0.25), num(1e300), sym("hello"), sym("a-b"), sym("two words")] {
        let line = e.render(&show) + "\n";
        assert_eq!(read_back(line), e);
    }
}

#[test]
fn kind_names() {
    assert_eq!(num(1.0).name(), "Number");
    assert_eq!(sym("x").name(), "Symbol");
    assert_eq!(Exp::List(vec![]).name(), "List");
}

#[test]
fn getters() {
    assert_eq!(sym("x").get_symbol(), Ok(&"x".to_string()));
    assert_eq!(num(1.0).get_symbol(), Err(LispError::NotSymbol(num(1.0))));
    assert_eq!(num(1.5).get_number(), Ok(1.5f64.to_bits()));
    assert_eq!(sym("y").get_number(), Err(LispError::NotNumber(sym("y"))));
}

#[test]
fn deep_copy_equal() {
    let e = Exp::List(vec![sym("a"), Exp::List(vec![num(3.0)])]);
    assert_eq!(e.deep_copy(), e);
}
