use tinylisp::eval::{builtin_funcs, Builtin, Fold, LispInfo};
use tinylisp::expr::{Exp, LispError};
use tinylisp::lexer::tokens;
use tinylisp::parser::{parse, parse_atom};

fn arith(o: Fold, a: u64, b: u64) -> u64 {
    let (x, y) = (f64::from_bits(a), f64::from_bits(b));
    match o {
        Fold::Add => (x + y).to_bits(),
        Fold::Sub => (x - y).to_bits(),
    }
}

fn show(n: u64) -> String {
    format!("{}", f64::from_bits(n))
}

fn num(x: f64) -> Exp {
    Exp::Number(x.to_bits())
}

fn sym(s: &str) -> Exp {
    Exp::Symbol(s.to_string())
}

fn toks(src: &str) -> Vec<String> {
    tokens(src.to_string()).unwrap()
}

fn readings(ts: &[String]) -> Vec<Option<u64>> {
    ts.iter().map(|t| t.parse::<f64>().ok().map(f64::to_bits)).collect()
}

fn read(src: &str) -> Exp {
    let ts = toks(src);
    let ns = readings(&ts);
    let (e, used) = parse(&ts, &ns).unwrap();
    assert_eq!(used, ts.len());
    e
}

fn run(src: &str) -> (Result<Exp, LispError>, Vec<Exp>) {
    let lisp = LispInfo::new(read(src));
    let mut out = Vec::new();
    let r = lisp.run(&arith, &mut out);
    (r, out)
}

#[test]
fn tokenize_simple_call() {
    assert_eq!(toks("(+ 1 2)"), vec!["(", "+", "1", "2", ")"]);
}

#[test]
fn tokenize_string_escape() {
    assert_eq!(toks("\"a\\nb\""), vec!["a\nb"]);
}

#[test]
fn tokenize_other_escapes() {
    assert_eq!(toks("(\"q\\\"x\\\\\")"), vec!["(", "q\"x\\", ")"]);
}

#[test]
fn tokenize_unknown_escape() {
    assert_eq!(tokens("\"a\\tb\"".to_string()), Err(LispError::BadEscape('t')));
}

#[test]
fn tokenize_drops_empty_tokens() {
    assert_eq!(toks("  (()\t)\n"), vec!["(", "(", ")", ")"]);
    assert_eq!(toks("\"\" x "), vec!["x"]);
}

#[test]
fn tokenize_keeps_no_unfinished_literal() {
    assert_eq!(toks("abc"), Vec::<String>::new());
    assert_eq!(toks("(a) b"), vec!["(", "a", ")"]);
}

#[test]
fn tokenize_skips_other_whitespace() {
    assert_eq!(toks("(a\r\u{a0}b)"), vec!["(", "ab", ")"]);
}

#[test]
fn tokenize_quote_joins_buffer() {
    assert_eq!(toks("ab\"c d\" "), vec!["abc d"]);
}

#[test]
fn parse_simple_call() {
    let ts = toks("(+ 1 2)");
    let ns = readings(&ts);
    let (e, used) = parse(&ts, &ns).unwrap();
    assert_eq!(e, Exp::List(vec![sym("+"), num(1.0), num(2.0)]));
    assert_eq!(used, ts.len());
}

#[test]
fn parse_nested_and_rest() {
    let ts = toks("(a (b 2.5) ()) extra ");
    let ns = readings(&ts);
    let (e, used) = parse(&ts, &ns).unwrap();
    assert_eq!(
        e,
        Exp::List(vec![sym("a"), Exp::List(vec![sym("b"), num(2.5)]), Exp::List(vec![])])
    );
    assert_eq!(used, ts.len() - 1);
}

#[test]
fn parse_unbalanced() {
    let ts = toks("(+ 1 2");
    let ns = readings(&ts);
    assert_eq!(parse(&ts, &ns), Err(LispError::MissingClose));
}

#[test]
fn parse_unexpected_close() {
    let ts = toks(")");
    let ns = readings(&ts);
    assert_eq!(parse(&ts, &ns), Err(LispError::UnexpectedClose));
}

#[test]
fn parse_nothing() {
    assert_eq!(parse(&[], &[]), Err(LispError::NoToken));
}

#[test]
fn parse_atom_kinds() {
    assert_eq!(parse_atom(&"7".to_string(), Some(7.0f64.to_bits())), num(7.0));
    assert_eq!(parse_atom(&"seven".to_string(), None), sym("seven"));
}

#[test]
fn eval_sum() {
    let (r, out) = run("(+ 1 2 3)");
    assert_eq!(r, Ok(num(6.0)));
    assert!(out.is_empty());
}

#[test]
fn eval_sequence_prints() {
    let (r, out) = run("(, (print 1) (print 2) 3)");
    assert_eq!(r, Ok(num(3.0)));
    assert_eq!(out, vec![num(1.0), num(2.0)]);
    let lines: Vec<String> = out.iter().map(|e| e.render(&show)).collect();
    assert_eq!(lines, vec!["1", "2"]);
}

#[test]
fn eval_number_head() {
    let (r, _) = run("(1 2)");
    assert_eq!(r, Err(LispError::NotSymbol(num(1.0))));
}

#[test]
fn eval_undefined_with_args() {
    let (r, _) = run("(undefined-name 1 2)");
    assert_eq!(r, Err(LispError::NotFunction("undefined-name".to_string())));
}

#[test]
fn eval_lone_symbol() {
    let (r, _) = run("(foo)");
    assert_eq!(r, Ok(sym("foo")));
}

#[test]
fn eval_atoms_self() {
    let lisp = LispInfo::new(num(4.5));
    let mut out = Vec::new();
    assert_eq!(lisp.run(&arith, &mut out), Ok(num(4.5)));
    let lisp = LispInfo::new(sym("x"));
    assert_eq!(lisp.run(&arith, &mut out), Ok(sym("x")));
}

#[test]
fn eval_empty_list() {
    let (r, _) = run("()");
    assert_eq!(r, Err(LispError::NoToken));
}

#[test]
fn eval_sub() {
    let (r, _) = run("(- 10 3 2.5)");
    assert_eq!(r, Ok(num(4.5)));
}

#[test]
fn eval_mul_and_div_add() {
    assert_eq!(run("(* 2 3 4)").0, Ok(num(9.0)));
    assert_eq!(run("(/ 8 2)").0, Ok(num(10.0)));
}

#[test]
fn eval_nested_arith() {
    assert_eq!(run("(+ (- 5 1) (+ 1 1))").0, Ok(num(6.0)));
}

#[test]
fn eval_arith_no_args() {
    assert_eq!(run("(+)").0, Err(LispError::NoToken));
}

#[test]
fn eval_arith_not_number() {
    assert_eq!(run("(+ a 1)").0, Err(LispError::NotNumber(sym("a"))));
    assert_eq!(run("(+ 1 (foo) 2)").0, Err(LispError::NotNumber(sym("foo"))));
}

#[test]
fn eval_debug_prints_raw() {
    let (r, out) = run("(' (+ 1 2) x)");
    assert_eq!(r, Ok(num(0.0)));
    assert_eq!(out, vec![Exp::List(vec![sym("+"), num(1.0), num(2.0)]), sym("x")]);
}

#[test]
fn eval_print_evaluates() {
    let (r, out) = run("(print (+ 1 2) x)");
    assert_eq!(r, Ok(num(0.0)));
    assert_eq!(out, vec![num(3.0), sym("x")]);
}

#[test]
fn eval_sequence_empty() {
    assert_eq!(run("(,)").0, Err(LispError::NothingToSequence));
}

#[test]
fn eval_prints_before_failure() {
    let (r, out) = run("(, (print 1) (1) (print 2))");
    assert_eq!(r, Err(LispError::NotSymbol(num(1.0))));
    assert_eq!(out, vec![num(1.0)]);
}

#[test]
fn registry_lookup() {
    let lisp = LispInfo::new(num(0.0));
    assert_eq!(lisp.lookup(&"print".to_string()), Some(Builtin::Print));
    assert_eq!(lisp.lookup(&"'".to_string()), Some(Builtin::Debug));
    assert_eq!(lisp.lookup(&"prin".to_string()), None);
    assert_eq!(builtin_funcs().len(), 7);
}
