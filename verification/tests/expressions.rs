use mathexpr::bindings::Bindings;
use mathexpr::builder::{Builder, BuilderErr, ErrorKind};
use mathexpr::faces::{FnFunction, Function};
use mathexpr::lexem::{parse, Lexem, Operand, Parser};
use mathexpr::registry::Registry;
use mathexpr::tree::Ast;
use num::Float;
use num::Num;

type RawFn = fn(Vec<f64>) -> Option<f64>;
type Reader = fn(&str) -> Option<f64>;
type Tree = Ast<f64, FnFunction<f64, RawFn>>;

fn one<T: Float>(args: &[T]) -> Option<T> {
    match args {
        [a] => Some(*a),
        _ => None,
    }
}

fn two<T: Float>(args: &[T]) -> Option<(T, T)> {
    match args {
        [a, b] => Some((*a, *b)),
        _ => None,
    }
}

fn add(args: Vec<f64>) -> Option<f64> {
    two(&args).map(|(a, b)| a + b)
}

fn sub(args: Vec<f64>) -> Option<f64> {
    two(&args).map(|(a, b)| a - b)
}

fn mul(args: Vec<f64>) -> Option<f64> {
    two(&args).map(|(a, b)| a * b)
}

fn div(args: Vec<f64>) -> Option<f64> {
    two(&args).map(|(a, b)| a / b)
}

fn pow(args: Vec<f64>) -> Option<f64> {
    two(&args).map(|(a, b)| Float::powf(a, b))
}

fn sin(args: Vec<f64>) -> Option<f64> {
    one(&args).map(Float::sin)
}

fn cos(args: Vec<f64>) -> Option<f64> {
    one(&args).map(Float::cos)
}

fn literal(text: &str) -> Option<f64> {
    <f64 as Num>::from_str_radix(text, 10).ok()
}

fn make_fn(ch: char) -> FnFunction<f64, RawFn> {
    let name = ch.to_string();
    match ch {
        '+' => FnFunction::new(&name, 2, add as RawFn),
        '-' => FnFunction::new(&name, 2, sub as RawFn),
        '*' => FnFunction::new(&name, 2, mul as RawFn),
        '/' => FnFunction::new(&name, 2, div as RawFn),
        '^' => FnFunction::new(&name, 2, pow as RawFn),
        _ => unreachable!(),
    }
}

fn registry() -> Registry<f64, RawFn, Reader> {
    Registry::new(literal as Reader)
        .register(make_fn('+'))
        .register(make_fn('-'))
        .register(make_fn('*'))
        .register(make_fn('/'))
        .register(make_fn('^'))
        .register(FnFunction::new("sin", 1, sin as RawFn))
        .register(FnFunction::new("cos", 1, cos as RawFn))
}

fn bind(name: &str, value: f64) -> Bindings<f64> {
    let mut params = Bindings::new();
    params.insert(name.to_string(), value);
    params
}

#[test]
fn build_plus() {
    let b = Builder::from_str("x + 10").unwrap();
    let tree = b.ast(&registry()).unwrap();
    println!("tree: {:?}", tree);
    let mut params = Bindings::new();
    params.insert("x".to_string(), 5f64);

    let res = tree.calculate(&params).unwrap();
    assert_eq!(15f64, res);
}

#[test]
fn build_ord() {
    let b = Builder::from_str("x-10*x+9").unwrap();
    let tree = b.ast(&registry()).unwrap();
    println!("tree: {:?}", tree);
    let mut params = Bindings::new();
    params.insert("x".to_string(), 1f64);

    let res = tree.calculate(&params).unwrap();
    assert_eq!(0f64, res);
}

#[test]
fn build_mipl() {
    let x = 1f64;
    let b = Builder::from_str("x - 10+9").unwrap();
    let tree = b.ast(&registry()).unwrap();
    println!("tree: {:?}", tree);
    let mut params = Bindings::new();
    params.insert("x".to_string(), x);

    let res = tree.calculate(&params).unwrap();
    assert_eq!(x - 10.0 + 9.0, res);
}

#[test]
fn build_brackets() {
    let x = 1f64;
    let b = Builder::from_str("x -3*(x-2)").unwrap();
    let tree = b.ast(&registry()).unwrap();
    println!("tree: {:?}", tree);
    let mut params = Bindings::new();

    params.insert("x".to_string(), x);

    let res = tree.calculate(&params).unwrap();
    assert_eq!(x - 3.0 * (x - 2.0), res);
}

#[test]
fn build_power() {
    let x = 2f64;
    let b = Builder::from_str("x -3^(x-2)").unwrap();
    let tree = b.ast(&registry()).unwrap();
    println!("tree: {:?}", tree);
    let mut params = Bindings::new();
    params.insert("x".to_string(), x);

    let res = tree.calculate(&params).unwrap();
    assert_eq!(x - 3.0.powf(x - 2.0), res);
}

#[test]
fn build_sin() {
    //5*sin(x)

    let b = Builder::from_str("5*sin(x)").unwrap();

    let expected = Builder::Complex(
        Operand::High('*'),
        Builder::Simple(Lexem::Letter("5".to_string())).into(),
        Builder::Complete(
            Builder::Fun(
                "sin".to_string(),
                vec![Builder::Simple(Lexem::Letter("x".to_string()))],
            )
            .into(),
        )
        .into(),
    );
    assert_eq!(format!("{:?}", b), format!("{:?}", expected))
}

#[test]
fn multiple_fun() {
    let x = 0.3;
    let b = Builder::from_str("sin(x)^2 +cos(x)^2").unwrap();
    let mut params = Bindings::new();
    let ast = b.ast(&registry()).unwrap();
    params.insert("x".to_string(), x);
    assert_eq!(1.0, ast.calculate(&params).unwrap());
}

#[test]
fn test_parse() {
    let v = parse("y8 - x + y/(8*6.38 - 5)-5x+y8");
    let n = v.iter().fold(0, |s, l| {
        println!("{:?}", l);
        s + 1
    });
    assert_eq!(n, 17);
}

fn plus(a: Tree, b: Tree) -> Tree {
    Ast::Operation(make_fn('+'), vec![a, b])
}

fn minus(a: Tree, b: Tree) -> Tree {
    Ast::Operation(make_fn('-'), vec![a, b])
}

fn multiple(a: Tree, b: Tree) -> Tree {
    Ast::Operation(make_fn('*'), vec![a, b])
}

fn divide(a: Tree, b: Tree) -> Tree {
    Ast::Operation(make_fn('/'), vec![a, b])
}

fn constant(t: f64) -> Tree {
    Ast::Constant(t)
}

fn variable(name: String) -> Tree {
    Ast::Variable(name)
}

#[test]
fn test_tree() {
    let tree = plus(
        constant(60f64),
        multiple(
            minus(
                constant(12f64),
                divide(constant(10f64), variable("x".to_string())),
            ),
            variable("y".to_string()),
        ),
    ); // 60 + (12-10/x)*y
    println!("tree: {:?}", tree);
    let mut map = Bindings::new();
    map.insert("x".to_string(), 5f64);
    map.insert("y".to_string(), 2f64);
    assert_eq!(tree.calculate(&map).unwrap(), 80f64);

    map.insert("x".to_string(), 2f64);
    map.insert("y".to_string(), 5f64);
    assert_eq!(tree.calculate(&map).unwrap(), 95f64);
}

fn evaluate(text: &str, params: &Bindings<f64>) -> Option<f64> {
    let tree = Builder::from_str(text).unwrap().ast(&registry()).unwrap();
    tree.calculate(params)
}

fn finalize_failure(text: &str) -> BuilderErr {
    match Builder::from_str(text).unwrap().ast(&registry()) {
        Ok(_) => panic!("a tree was built"),
        Err(e) => e,
    }
}

fn reading_failure(text: &str) -> BuilderErr {
    match Builder::from_str(text) {
        Ok(b) => panic!("read as {:?}", b),
        Err(e) => e,
    }
}

fn shown(tokens: &[Lexem]) -> Vec<String> {
    tokens.iter().map(|l| format!("{:?}", l)).collect()
}

#[test]
fn tokens_of_an_expression() {
    let v = parse("x-10*x+9");
    assert_eq!(
        shown(&v),
        vec![
            "Letter(\"x\")",
            "Op(Low('-'))",
            "Letter(\"10\")",
            "Op(High('*'))",
            "Letter(\"x\")",
            "Op(Low('+'))",
            "Letter(\"9\")",
        ]
    );
}

#[test]
fn tokens_of_structural_characters() {
    let v = parse("(),+-*/^");
    assert_eq!(
        shown(&v),
        vec![
            "Open",
            "Close",
            "Comma",
            "Op(Low('+'))",
            "Op(Low('-'))",
            "Op(High('*'))",
            "Op(High('/'))",
            "Op(Highest('^'))",
        ]
    );
}

#[test]
fn ignored_characters_leave_a_run_open() {
    assert_eq!(shown(&parse("5 x")), vec!["Letter(\"5x\")"]);
    assert_eq!(shown(&parse(" a\tb ; c ")), vec!["Letter(\"abc\")"]);
    assert_eq!(shown(&parse("a$+")), vec!["Letter(\"a\")", "Op(Low('+'))"]);
}

#[test]
fn empty_text_has_no_tokens() {
    assert!(parse("").is_empty());
    assert!(parse("  \n").is_empty());
}

#[test]
fn identifier_characters() {
    assert_eq!(shown(&parse("aZ09.q")), vec!["Letter(\"aZ09.q\")"]);
    assert_eq!(shown(&parse("6.38")), vec!["Letter(\"6.38\")"]);
}

#[test]
fn scanner_step_by_step() {
    let p = Parser::new().process('a').process('1').process('(').process(' ').process('b');
    let v = p.end().lexemes();
    assert_eq!(shown(&v), vec!["Letter(\"a1\")", "Open", "Letter(\"b\")"]);
}

#[test]
fn scanner_without_end_keeps_the_open_run() {
    let v = Parser::new().process('a').process('+').process('b').lexemes();
    assert_eq!(shown(&v), vec!["Letter(\"a\")", "Op(Low('+'))"]);
}

#[test]
fn special_tokens() {
    assert!(matches!(Lexem::special('('), Some(Lexem::Open)));
    assert!(matches!(Lexem::special(')'), Some(Lexem::Close)));
    assert!(matches!(Lexem::special(','), Some(Lexem::Comma)));
    assert!(matches!(Lexem::special('^'), Some(Lexem::Op(Operand::Highest('^')))));
    assert!(Lexem::special('x').is_none());
    assert!(Lexem::special(' ').is_none());
}

#[test]
fn operator_tiers() {
    let low = Operand::Low('+');
    let high = Operand::High('*');
    let highest = Operand::Highest('^');
    assert!(high.more(&low));
    assert!(highest.more(&high));
    assert!(highest.more(&low));
    assert!(!low.more(&high));
    assert!(!low.more(&highest));
    assert!(!high.more(&highest));
    assert!(!low.more(&Operand::Low('-')));
    assert!(!high.more(&Operand::High('/')));
    assert!(!highest.more(&highest));
}

#[test]
fn operators_of_characters() {
    assert_eq!(Operand::from('+'), Some(Operand::Low('+')));
    assert_eq!(Operand::from('-'), Some(Operand::Low('-')));
    assert_eq!(Operand::from('*'), Some(Operand::High('*')));
    assert_eq!(Operand::from('/'), Some(Operand::High('/')));
    assert_eq!(Operand::from('^'), Some(Operand::Highest('^')));
    assert_eq!(Operand::from('('), None);
    assert_eq!(Operand::from('a'), None);
}

#[test]
fn operator_symbols() {
    assert_eq!(Operand::Low('-').ch(), '-');
    assert_eq!(Operand::High('/').ch(), '/');
    assert_eq!(Operand::Highest('^').ch(), '^');
    assert_eq!(Operand::Low('+').to_string(), "+");
    assert_eq!(Operand::High('*').to_string(), "*");
}

#[test]
fn reading_builds_the_states_in_turn() {
    let b = Builder::new();
    assert_eq!(format!("{:?}", b), "Empty");
    let b = b.process(Lexem::Letter("x".to_string())).unwrap();
    assert_eq!(format!("{:?}", b), "Simple(Letter(\"x\"))");
    let b = b.process(Lexem::Op(Operand::Low('+'))).unwrap();
    assert_eq!(format!("{:?}", b), "Complex(Low('+'), Simple(Letter(\"x\")), Empty)");
    let b = b.process(Lexem::Open).unwrap();
    assert_eq!(format!("{:?}", b), "Complex(Low('+'), Simple(Letter(\"x\")), Body(Empty))");
    let b = b.process(Lexem::Letter("y".to_string())).unwrap();
    let b = b.process(Lexem::Close).unwrap();
    assert_eq!(
        format!("{:?}", b),
        "Complex(Low('+'), Simple(Letter(\"x\")), Complete(Simple(Letter(\"y\"))))"
    );
}

#[test]
fn same_tier_rotates_left() {
    let b = Builder::from_str("a-b+c").unwrap();
    assert_eq!(
        format!("{:?}", b),
        "Complex(Low('+'), Complex(Low('-'), Simple(Letter(\"a\")), Simple(Letter(\"b\"))), \
         Simple(Letter(\"c\")))"
    );
}

#[test]
fn higher_tier_descends_right() {
    let b = Builder::from_str("a-b*c").unwrap();
    assert_eq!(
        format!("{:?}", b),
        "Complex(Low('-'), Simple(Letter(\"a\")), Complex(High('*'), Simple(Letter(\"b\")), \
         Simple(Letter(\"c\"))))"
    );
}

#[test]
fn lower_tier_after_higher_closes_both() {
    let b = Builder::from_str("a*b^c+d").unwrap();
    assert_eq!(
        format!("{:?}", b),
        "Complex(Low('+'), Complex(High('*'), Simple(Letter(\"a\")), Complex(Highest('^'), \
         Simple(Letter(\"b\")), Simple(Letter(\"c\")))), Simple(Letter(\"d\")))"
    );
}

#[test]
fn call_with_several_arguments() {
    let b = Builder::from_str("f(a,b+1,(c))").unwrap();
    assert_eq!(
        format!("{:?}", b),
        "Complete(Fun(\"f\", [Simple(Letter(\"a\")), Complex(Low('+'), Simple(Letter(\"b\")), \
         Simple(Letter(\"1\"))), Complete(Simple(Letter(\"c\")))]))"
    );
}

#[test]
fn open_call_takes_every_token() {
    let b = Builder::from_str("f(g(a,b").unwrap();
    assert_eq!(
        format!("{:?}", b),
        "Fun(\"f\", [Fun(\"g\", [Simple(Letter(\"a\")), Simple(Letter(\"b\"))])])"
    );
}

#[test]
fn wanted_tokens() {
    let open = Lexem::Open;
    let close = Lexem::Close;
    let times = Lexem::Op(Operand::High('*'));
    let plus = Lexem::Op(Operand::Low('+'));
    assert!(Builder::Empty.want_process(&close));
    assert!(Builder::from_str("(a").unwrap().want_process(&close));
    assert!(Builder::from_str("f(a").unwrap().want_process(&plus));
    assert!(Builder::from_str("a").unwrap().want_process(&open));
    assert!(!Builder::from_str("a").unwrap().want_process(&plus));
    assert!(!Builder::from_str("(a)").unwrap().want_process(&open));
    assert!(Builder::from_str("a+b").unwrap().want_process(&times));
    assert!(!Builder::from_str("a+b").unwrap().want_process(&plus));
    assert!(!Builder::from_str("a*b").unwrap().want_process(&times));
    assert!(Builder::from_str("a+").unwrap().want_process(&plus));
    assert!(Builder::from_str("a+b").unwrap().want_process(&open));
}

#[test]
fn token_without_transition_is_a_syntax_error() {
    let e = reading_failure(")");
    assert!(matches!(e.kind, ErrorKind::SyntaxError(Lexem::Close)));
    assert_eq!(e.message, "Unexpected lexem Close");
    assert!(matches!(e.partial, Some(Builder::Empty)));
}

#[test]
fn two_operators_in_a_row_are_a_syntax_error() {
    let e = reading_failure("x+*y");
    assert!(matches!(e.kind, ErrorKind::SyntaxError(Lexem::Op(Operand::High('*')))));
    assert_eq!(e.message, "Unexpected lexem Op(High('*'))");
    assert!(matches!(e.partial, Some(Builder::Empty)));
}

#[test]
fn comma_outside_a_call_is_a_syntax_error() {
    let e = reading_failure("x,y");
    assert!(matches!(e.kind, ErrorKind::SyntaxError(Lexem::Comma)));
    assert_eq!(e.message, "Unexpected lexem Comma");
    assert_eq!(format!("{:?}", e.partial), "Some(Simple(Letter(\"x\")))");
}

#[test]
fn close_without_open_is_a_syntax_error() {
    let e = reading_failure("x+1)");
    assert!(matches!(e.kind, ErrorKind::SyntaxError(Lexem::Close)));
    assert_eq!(format!("{:?}", e.partial), "Some(Simple(Letter(\"1\")))");
}

#[test]
fn empty_group_and_empty_call_are_syntax_errors() {
    assert!(matches!(reading_failure("()").kind, ErrorKind::SyntaxError(Lexem::Close)));
    assert!(matches!(reading_failure("sin()").kind, ErrorKind::SyntaxError(Lexem::Close)));
    assert!(matches!(reading_failure("f(a,)").kind, ErrorKind::SyntaxError(Lexem::Close)));
}

#[test]
fn group_after_a_closed_operand_is_a_syntax_error() {
    let e = reading_failure("(x)(");
    assert!(matches!(e.kind, ErrorKind::SyntaxError(Lexem::Open)));
    assert_eq!(e.message, "Unexpected lexem Open");
    let e = reading_failure("(x)y");
    assert!(matches!(e.kind, ErrorKind::SyntaxError(Lexem::Letter(_))));
    assert_eq!(e.message, "Unexpected lexem Letter(\"y\")");
}

#[test]
fn reading_stops_at_the_first_failure() {
    let e = reading_failure("x+*y)(");
    assert!(matches!(e.kind, ErrorKind::SyntaxError(Lexem::Op(Operand::High('*')))));
}

#[test]
fn call_without_arguments_in_the_state_is_refused() {
    let e = match Builder::Fun("f".to_string(), vec![]).process(Lexem::Close) {
        Ok(b) => panic!("read as {:?}", b),
        Err(e) => e,
    };
    assert!(matches!(e.kind, ErrorKind::SyntaxError(Lexem::Close)));
    assert_eq!(format!("{:?}", e.partial), "Some(Fun(\"f\", []))");
}

#[test]
fn unclosed_group_is_incomplete() {
    let e = finalize_failure("(x+1");
    assert!(matches!(e.kind, ErrorKind::IncompleteExpression));
    assert_eq!(e.message, "expected ')'");
    assert_eq!(
        format!("{:?}", e.partial),
        "Some(Body(Complex(Low('+'), Simple(Letter(\"x\")), Simple(Letter(\"1\")))))"
    );
}

#[test]
fn unclosed_call_is_incomplete() {
    let e = finalize_failure("sin(x");
    assert!(matches!(e.kind, ErrorKind::IncompleteExpression));
    assert_eq!(e.message, "expected ')'");
    assert_eq!(format!("{:?}", e.partial), "Some(Fun(\"sin\", [Simple(Letter(\"x\"))]))");
}

#[test]
fn nothing_read_is_incomplete() {
    let e = finalize_failure("");
    assert!(matches!(e.kind, ErrorKind::IncompleteExpression));
    assert_eq!(e.message, "expression not complete");
    assert!(e.partial.is_none());
}

#[test]
fn pending_operator_is_incomplete() {
    let e = finalize_failure("x+");
    assert!(matches!(e.kind, ErrorKind::IncompleteExpression));
    assert_eq!(e.message, "expression not complete");
    assert!(e.partial.is_none());
}

#[test]
fn unknown_function_is_reported_by_name() {
    let e = finalize_failure("foo(x)");
    match e.kind {
        ErrorKind::UnknownFunction(name) => assert_eq!(name, "foo"),
        other => panic!("{:?}", other),
    }
    assert_eq!(e.message, "Function foo not found");
    assert!(e.partial.is_none());
}

#[test]
fn unknown_function_is_found_before_its_arguments() {
    let e = finalize_failure("foo((x)+bar(1))");
    assert_eq!(e.message, "Function foo not found");
    let e = finalize_failure("sin(x)+bar(foo(1))");
    assert_eq!(e.message, "Function bar not found");
}

#[test]
fn left_operand_fails_before_the_right() {
    let e = finalize_failure("foo(x)+");
    assert_eq!(e.message, "Function foo not found");
    let e = finalize_failure("x+foo(");
    assert_eq!(e.message, "expected ')'");
}

#[test]
fn operator_that_is_not_registered_is_unknown() {
    let bare: Registry<f64, RawFn, Reader> = Registry::new(literal as Reader);
    let e = match Builder::from_str("x+1").unwrap().ast(&bare) {
        Ok(_) => panic!("a tree was built"),
        Err(e) => e,
    };
    match e.kind {
        ErrorKind::UnknownFunction(name) => assert_eq!(name, "+"),
        other => panic!("{:?}", other),
    }
    assert_eq!(e.message, "Function + not found");
}

#[test]
fn token_that_is_no_operand_is_refused_by_finalization() {
    let e = match Builder::Simple(Lexem::Comma).ast(&registry()) {
        Ok(_) => panic!("a tree was built"),
        Err(e) => e,
    };
    assert!(matches!(e.kind, ErrorKind::SyntaxError(Lexem::Comma)));
    assert_eq!(e.message, "Unexpected lexem Comma");
    assert!(e.partial.is_none());
}

#[test]
fn unbound_variable_gives_no_result() {
    assert_eq!(evaluate("x+y", &bind("x", 1.0)), None);
    assert_eq!(evaluate("y", &Bindings::new()), None);
}

#[test]
fn number_is_a_constant_and_name_a_variable() {
    let tree = Builder::from_str("10").unwrap().ast(&registry()).unwrap();
    assert!(matches!(tree, Ast::Constant(n) if n == 10.0));
    let tree = Builder::from_str("6.38").unwrap().ast(&registry()).unwrap();
    assert!(matches!(tree, Ast::Constant(n) if n == 6.38));
    let tree = Builder::from_str("x1").unwrap().ast(&registry()).unwrap();
    assert!(matches!(tree, Ast::Variable(ref name) if name == "x1"));
}

#[test]
fn malformed_number_is_a_variable() {
    let tree = Builder::from_str("3.4.5").unwrap().ast(&registry()).unwrap();
    assert!(matches!(tree, Ast::Variable(ref name) if name == "3.4.5"));
    assert_eq!(evaluate("3.4.5+1", &Bindings::new()), None);
    assert_eq!(evaluate("3.4.5+1", &bind("3.4.5", 2.0)), Some(3.0));
    assert_eq!(evaluate("5x", &bind("5x", 4.0)), Some(4.0));
}

#[test]
fn left_associativity() {
    assert_eq!(evaluate("x-10-x+9", &bind("x", 1.0)), Some(-1.0));
    assert_eq!(evaluate("x-10-x+9", &bind("x", 1.0)), evaluate("((x-10)-x)+9", &bind("x", 1.0)));
    assert_eq!(evaluate("100/10/5", &Bindings::new()), Some(2.0));
    assert_eq!(evaluate("100/10*5", &Bindings::new()), Some(50.0));
    assert_eq!(evaluate("2^3^2", &Bindings::new()), Some(64.0));
}

#[test]
fn precedence() {
    assert_eq!(evaluate("x-10*x+9", &bind("x", 1.0)), Some(0.0));
    assert_eq!(evaluate("2+3*4", &Bindings::new()), Some(14.0));
    assert_eq!(evaluate("2*3+4", &Bindings::new()), Some(10.0));
    assert_eq!(evaluate("2*3^2", &Bindings::new()), Some(18.0));
    assert_eq!(evaluate("1+2*3^2-4", &Bindings::new()), Some(15.0));
    assert_eq!(evaluate("2+3*4", &Bindings::new()), evaluate("2+(3*4)", &Bindings::new()));
}

#[test]
fn parentheses_override_precedence() {
    assert_eq!(evaluate("x-3*(x-2)", &bind("x", 1.0)), Some(4.0));
    assert_eq!(evaluate("(2+3)*4", &Bindings::new()), Some(20.0));
    assert_eq!(evaluate("((2))", &Bindings::new()), Some(2.0));
    assert_eq!(evaluate("2^(3^2)", &Bindings::new()), Some(512.0));
}

#[test]
fn power_of_a_group() {
    assert_eq!(evaluate("x-3^(x-2)", &bind("x", 2.0)), Some(1.0));
}

#[test]
fn one_tree_under_several_bindings() {
    let tree = Builder::from_str("x+10").unwrap().ast(&registry()).unwrap();
    assert_eq!(tree.calculate(&bind("x", 5.0)), Some(15.0));
    assert_eq!(tree.calculate(&bind("x", 2.0)), Some(12.0));
    assert_eq!(tree.calculate(&bind("x", -3.0)), Some(7.0));
    assert_eq!(tree.calculate(&bind("x", 5.0)), Some(15.0));
}

#[test]
fn evaluation_is_repeatable() {
    let tree = Builder::from_str("sin(x)*x-3/(x+1)").unwrap().ast(&registry()).unwrap();
    let params = bind("x", 0.7);
    let first = tree.calculate(&params);
    let second = tree.calculate(&params);
    assert!(first.is_some());
    assert_eq!(first, second);
}

#[test]
fn function_dispatch() {
    let x = 0.3f64;
    assert_eq!(evaluate("5*sin(x)", &bind("x", x)), Some(5.0 * x.sin()));
    assert_eq!(evaluate("cos(x)", &bind("x", x)), Some(x.cos()));
    assert_eq!(evaluate("sin(cos(x))", &bind("x", x)), Some(x.cos().sin()));
}

#[test]
fn pythagorean_identity() {
    for x in [-2.5f64, -1.0, 0.0, 0.3, 1.0, 2.0, 10.0] {
        let res = evaluate("sin(x)^2+cos(x)^2", &bind("x", x)).unwrap();
        assert!((res - 1.0).abs() < 1e-12);
    }
}

#[test]
fn function_with_two_arguments() {
    let reg = registry().register(FnFunction::new("pow", 2, pow as RawFn));
    let tree = Builder::from_str("pow(x,(1+2))+1").unwrap().ast(&reg).unwrap();
    assert_eq!(tree.calculate(&bind("x", 2.0)), Some(9.0));
}

#[test]
fn function_that_fails_gives_no_result() {
    let reg = registry().register(FnFunction::new("pow", 2, pow as RawFn));
    let tree = Builder::from_str("1+pow(x)").unwrap().ast(&reg).unwrap();
    assert_eq!(tree.calculate(&bind("x", 2.0)), None);
}

#[test]
fn later_registration_replaces_earlier() {
    let reg = registry().register(FnFunction::new("sin", 1, cos as RawFn));
    let tree = Builder::from_str("sin(x)").unwrap().ast(&reg).unwrap();
    assert_eq!(tree.calculate(&bind("x", 0.0)), Some(1.0));
}

#[test]
fn registry_lookup() {
    let reg = registry();
    let f = reg.lookup(&"sin".to_string()).unwrap();
    assert_eq!(f.name(), "sin");
    assert_eq!(f.call(vec![0.0]), Some(0.0));
    assert!(reg.lookup(&"tan".to_string()).is_none());
    assert!(reg.lookup(&"".to_string()).is_none());
}

#[test]
fn registry_reads_numbers() {
    let reg = registry();
    assert_eq!(reg.number("12.5"), Some(12.5));
    assert_eq!(reg.number("x"), None);
    assert_eq!(reg.number("1.2.3"), None);
}

#[test]
fn operator_functions() {
    let reg = registry();
    let f = Operand::make_fn('-', &reg).unwrap();
    assert_eq!(f.name(), "-");
    assert_eq!(f.call(vec![5.0, 3.0]), Some(2.0));
    assert!(Operand::make_fn('x', &reg).is_none());
    assert!(Operand::make_fn('(', &reg).is_none());
    let g = Operand::High('/').into_fn(&reg).unwrap();
    assert_eq!(g.call(vec![6.0, 3.0]), Some(2.0));
    let bare: Registry<f64, RawFn, Reader> = Registry::new(literal as Reader);
    assert!(Operand::make_fn('+', &bare).is_none());
}

#[test]
fn function_from_a_closure() {
    let f = FnFunction::new("add", 2, add as RawFn);
    assert_eq!(f.name(), "add");
    assert_eq!(f.args_count(), 2);
    assert_eq!(f.call(vec![1.0, 2.0]), Some(3.0));
    assert_eq!(f.call(vec![1.0]), None);
    assert!(f.is_named(&"add".to_string()));
    assert!(!f.is_named(&"sub".to_string()));
    let g = f.duplicate();
    assert_eq!(g.name(), "add");
    assert_eq!(g.args_count(), 2);
    assert_eq!(g.call(vec![4.0, 2.0]), Some(6.0));
}

#[test]
fn later_binding_replaces_earlier() {
    let mut params = bind("x", 1.0);
    params.insert("y".to_string(), 2.0);
    params.insert("x".to_string(), 3.0);
    assert_eq!(params.get(&"x".to_string()), Some(3.0));
    assert_eq!(params.get(&"y".to_string()), Some(2.0));
    assert_eq!(params.get(&"z".to_string()), None);
}

#[test]
fn errors_built_by_hand() {
    let e = Builder::simple_err(ErrorKind::IncompleteExpression, "m".to_string());
    assert!(matches!(e.kind, ErrorKind::IncompleteExpression));
    assert_eq!(e.message, "m");
    assert!(e.partial.is_none());
    let e = Builder::Empty.make_err(ErrorKind::UnknownFunction("f".to_string()), "n".to_string());
    assert!(matches!(e.kind, ErrorKind::UnknownFunction(ref name) if name == "f"));
    assert_eq!(e.message, "n");
    assert!(matches!(e.partial, Some(Builder::Empty)));
}

#[test]
fn function_carries_its_own_arity() {
    let reg = registry();
    assert_eq!(reg.lookup(&"sin".to_string()).unwrap().args_count(), 1);
    assert_eq!(reg.lookup(&"cos".to_string()).unwrap().args_count(), 1);
    assert_eq!(reg.lookup(&"+".to_string()).unwrap().args_count(), 2);
    assert_eq!(Operand::make_fn('^', &reg).unwrap().args_count(), 2);
    let none = FnFunction::new("seven", 0, (|_| Some(7.0)) as RawFn);
    assert_eq!(none.args_count(), 0);
    assert_eq!(none.call(vec![]), Some(7.0));
    assert_eq!(none.call(vec![1.0]), None);
}

#[test]
fn wrong_number_of_arguments_gives_no_result() {
    let first = (|args: Vec<f64>| args.first().copied()) as RawFn;
    let f = FnFunction::new("first", 1, first);
    assert_eq!(f.call(vec![4.0]), Some(4.0));
    assert_eq!(f.call(vec![4.0, 5.0]), None);
    assert_eq!(f.call(vec![]), None);
    let g = FnFunction::new("first", 2, first);
    assert_eq!(g.call(vec![4.0, 5.0]), Some(4.0));
    assert_eq!(g.call(vec![4.0]), None);
    assert_eq!(g.duplicate().call(vec![4.0, 5.0, 6.0]), None);
}

#[test]
fn call_with_too_many_arguments_gives_no_result() {
    assert_eq!(evaluate("sin(x,x)", &bind("x", 0.3)), None);
    assert_eq!(evaluate("1+cos(x,2,3)", &bind("x", 0.3)), None);
    assert_eq!(evaluate("sin(x)", &bind("x", 0.0)), Some(0.0));
}

#[test]
fn bound_value_is_found() {
    assert_eq!(bind("x", 2.5).get(&"x".to_string()), Some(2.5));
}
