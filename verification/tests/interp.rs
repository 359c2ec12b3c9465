use mlisp::env::Env;
use mlisp::eval::evaluate;
use mlisp::parser::parse;
use mlisp::run;
use mlisp::run_with_budget;
use mlisp::token::Error;
use mlisp::token::Token;

#[test]
fn arith() {
    let text = "(+ (- 10 5) (* 2 2))";
    let res = run(text).unwrap();
    assert!(matches!(res.values[0], Token::Int(9)));

    let text = "(+ (- 10 5) (* -2 10))";
    let res = run(text).unwrap();
    assert!(matches!(res.values[0], Token::Int(-15)));
}

#[test]
fn branching() {
    let text = "(if (> 10 (* 3 3)) 1 2)";
    let res = run(text).unwrap();
    assert!(matches!(res.values[0], Token::Int(1)));

    let text = "(if (< 10 (* 3 3)) 1 2)";
    let res = run(text).unwrap();
    assert!(matches!(res.values[0], Token::Int(2)));
}

#[test]
fn iteration() {
    let text = r#"
            (do
                (set i 5)
                (while (> i 0) (do (print i) (set i (- i 1)))))
            "#;
    let res = run(text).unwrap();
    assert!(matches!(res.values[0], Token::List(_)));
}

#[test]
fn arith_exact_values() {
    let res = run("(- 3 10)").unwrap();
    assert!(matches!(res.values[0], Token::Int(-7)));
    let res = run("(* -4 5)").unwrap();
    assert!(matches!(res.values[0], Token::Int(-20)));
    let res = run("(+ +5 -3)").unwrap();
    assert!(matches!(res.values[0], Token::Int(2)));
}

#[test]
fn arith_wraps_around() {
    let res = run("(+ 2147483647 1)").unwrap();
    assert!(matches!(res.values[0], Token::Int(-2147483648)));
    let res = run("(- 0 -2147483648)").unwrap();
    assert!(matches!(res.values[0], Token::Int(-2147483648)));
    let res = run("(* 65536 65536)").unwrap();
    assert!(matches!(res.values[0], Token::Int(0)));
}

#[test]
fn comparisons_on_ints() {
    let res = run("(> 2 1)").unwrap();
    assert!(matches!(res.values[0], Token::True));
    let res = run("(< 2 1)").unwrap();
    assert!(matches!(res.values[0], Token::False));
    let res = run("(= 5 5)").unwrap();
    assert!(matches!(res.values[0], Token::True));
    let res = run("(= 5 6)").unwrap();
    assert!(matches!(res.values[0], Token::False));
}

#[test]
fn comparisons_on_symbols() {
    // Unbound symbols in value position stand for themselves, and
    // symbols order lexicographically.
    let res = run("(> b a)").unwrap();
    assert!(matches!(res.values[0], Token::True));
    let res = run("(< bb ba)").unwrap();
    assert!(matches!(res.values[0], Token::False));
    let res = run("(= a a)").unwrap();
    assert!(matches!(res.values[0], Token::True));
}

#[test]
fn equality_is_structural() {
    let res = run("(= (do 1 2) (do 1 2))").unwrap();
    assert!(matches!(res.values[0], Token::True));
    let res = run("(= (do 1) (do 2))").unwrap();
    assert!(matches!(res.values[0], Token::False));
}

#[test]
fn set_binds_across_top_level_forms() {
    let res = run("(set x 4) (+ x 1)").unwrap();
    assert_eq!(res.values.len(), 2);
    assert!(matches!(res.values[0], Token::Int(4)));
    assert!(matches!(res.values[1], Token::Int(5)));
}

#[test]
fn set_returns_last_bound_value() {
    let res = run("(set x 1) (set x 7) x").unwrap();
    assert!(matches!(res.values[2], Token::Int(7)));
}

#[test]
fn unbound_symbol_evaluates_to_itself() {
    let res = run("foo").unwrap();
    match &res.values[0] {
        Token::Symbol(name) => assert_eq!(name.as_slice(), b"foo"),
        other => panic!("expected a symbol, got {:?}", other),
    }
}

#[test]
fn bound_symbol_in_call_position() {
    let res = run("(do (set x 9) (x 1 2))").unwrap();
    match &res.values[0] {
        Token::List(items) => {
            assert!(matches!(items[0], Token::Int(9)));
            assert!(matches!(items[1], Token::Int(9)));
        },
        other => panic!("expected a list, got {:?}", other),
    }
}

#[test]
fn do_collects_left_to_right() {
    let res = run("(do 1 2 3)").unwrap();
    match &res.values[0] {
        Token::List(items) => {
            assert_eq!(items.len(), 3);
            assert!(matches!(items[0], Token::Int(1)));
            assert!(matches!(items[1], Token::Int(2)));
            assert!(matches!(items[2], Token::Int(3)));
        },
        other => panic!("expected a list, got {:?}", other),
    }
}

#[test]
fn do_threads_side_effects() {
    let res = run("(do (set i 2) i)").unwrap();
    match &res.values[0] {
        Token::List(items) => {
            assert!(matches!(items[0], Token::Int(2)));
            assert!(matches!(items[1], Token::Int(2)));
        },
        other => panic!("expected a list, got {:?}", other),
    }
}

#[test]
fn print_emits_in_order() {
    let text = "(do (set i 5) (while (> i 0) (do (print i) (set i (- i 1)))))";
    let res = run(text).unwrap();
    assert_eq!(res.printed.len(), 5);
    assert!(matches!(res.printed[0], Token::Int(5)));
    assert!(matches!(res.printed[1], Token::Int(4)));
    assert!(matches!(res.printed[2], Token::Int(3)));
    assert!(matches!(res.printed[3], Token::Int(2)));
    assert!(matches!(res.printed[4], Token::Int(1)));
}

#[test]
fn print_returns_its_value() {
    let res = run("(print 7)").unwrap();
    assert!(matches!(res.values[0], Token::Int(7)));
    assert_eq!(res.printed.len(), 1);
    assert!(matches!(res.printed[0], Token::Int(7)));
}

#[test]
fn while_with_false_condition_is_false() {
    let res = run("(while (> 0 1) 7)").unwrap();
    assert!(matches!(res.values[0], Token::False));
    let res = run("(while 0 1)").unwrap();
    assert!(matches!(res.values[0], Token::False));
}

#[test]
fn while_returns_last_body_value() {
    let res = run("(do (set i 3) (while (> i 0) (set i (- i 1))))").unwrap();
    match &res.values[0] {
        Token::List(items) => {
            assert!(matches!(items[0], Token::Int(3)));
            assert!(matches!(items[1], Token::Int(0)));
        },
        other => panic!("expected a list, got {:?}", other),
    }
}

#[test]
fn if_without_else_taken_branch() {
    let res = run("(if (> 2 1) 5)").unwrap();
    assert!(matches!(res.values[0], Token::Int(5)));
    assert!(matches!(run("(if (> 1 2) 5)"), Err(Error::Arity)));
}

#[test]
fn if_condition_must_be_exactly_true() {
    let res = run("(if 1 2 3)").unwrap();
    assert!(matches!(res.values[0], Token::Int(3)));
}

#[test]
fn unmatched_open_is_a_parse_error() {
    assert!(matches!(run("(+ 1 2"), Err(Error::UnmatchedOpen)));
}

#[test]
fn unmatched_close_is_a_parse_error() {
    assert!(matches!(run(")"), Err(Error::UnmatchedClose)));
    assert!(matches!(run("(+ 1 2))"), Err(Error::UnmatchedClose)));
}

#[test]
fn lexical_error_reports_line_and_position() {
    assert!(matches!(run("#"), Err(Error::Lexical { line: 0, pos: 0 })));
    assert!(matches!(run("\n\n@"), Err(Error::Lexical { line: 2, pos: 2 })));
    // A whitespace run that starts with a blank consumes its newlines
    // without counting them: the line number is diagnostic only.
    assert!(matches!(run("  \n@"), Err(Error::Lexical { line: 0, pos: 3 })));
}

#[test]
fn int_literal_out_of_range() {
    assert!(matches!(run("2147483648"), Err(Error::IntRange { line: 0, pos: 0 })));
    assert!(matches!(run("99999999999999999999999999"), Err(Error::IntRange { line: 0, pos: 0 })));
    let res = run("-2147483648").unwrap();
    assert!(matches!(res.values[0], Token::Int(-2147483648)));
}

#[test]
fn sign_followed_by_digits_is_a_number() {
    let res = run("--5").unwrap();
    assert_eq!(res.values.len(), 2);
    assert!(matches!(res.values[0], Token::Symbol(_)));
    assert!(matches!(res.values[1], Token::Int(-5)));
}

#[test]
fn arith_type_error() {
    assert!(matches!(run("(+ 1 x)"), Err(Error::ArithType)));
    assert!(matches!(run("(* (do 1) 2)"), Err(Error::ArithType)));
}

#[test]
fn cmp_type_error() {
    assert!(matches!(run("(< 1 b)"), Err(Error::CmpType)));
    assert!(matches!(run("(> a 1)"), Err(Error::CmpType)));
}

#[test]
fn unknown_symbol_in_call_position() {
    assert!(matches!(run("(foo)"), Err(Error::UnknownSymbol)));
}

#[test]
fn head_must_be_a_symbol() {
    assert!(matches!(run("(1 2)"), Err(Error::HeadNotSymbol)));
    assert!(matches!(run("()"), Err(Error::HeadNotSymbol)));
    assert!(matches!(run("((do 1) 2)"), Err(Error::HeadNotSymbol)));
}

#[test]
fn missing_operands() {
    assert!(matches!(run("(+ 1)"), Err(Error::Arity)));
    assert!(matches!(run("(while)"), Err(Error::Arity)));
    assert!(matches!(run("(print)"), Err(Error::Arity)));
    assert!(matches!(run("(set x)"), Err(Error::Arity)));
}

#[test]
fn set_target_must_be_a_symbol() {
    assert!(matches!(run("(set 5 3)"), Err(Error::SetTargetNotSymbol)));
}

#[test]
fn budget_stops_endless_loops() {
    assert!(matches!(run_with_budget("(while (> 1 0) 1)", 5), Err(Error::Exhausted)));
    let res = run_with_budget("(+ 1 2)", 0).unwrap();
    assert!(matches!(res.values[0], Token::Int(3)));
}

#[test]
fn budget_counts_loop_iterations() {
    let text = "(do (set i 3) (while (> i 0) (set i (- i 1))))";
    assert!(matches!(run_with_budget(text, 3), Err(Error::Exhausted)));
    assert!(run_with_budget(text, 4).is_ok());
}

#[test]
fn parser_rejects_tokens_the_lexer_never_yields() {
    assert!(matches!(parse(&vec![Token::True]), Err(Error::UnexpectedToken)));
}

#[test]
fn evaluator_rejects_structural_markers() {
    let mut env = Env::new();
    let mut out: Vec<Token> = Vec::new();
    assert!(matches!(evaluate(0, &Token::Open, &mut env, &mut out), Err(Error::MarkerInTree)));
}

#[test]
fn empty_source_runs_to_nothing() {
    let res = run("").unwrap();
    assert_eq!(res.values.len(), 0);
    assert_eq!(res.printed.len(), 0);
}
