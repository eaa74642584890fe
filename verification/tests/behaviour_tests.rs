use lib::lexer::{chars_of, tokenize, C1Lexer, C1Token, TokenData};
use lib::lexer::C1Token::{
    And, Assign, Asterisk, Comma, ConstBoolean, ConstFloat, ConstInt, ConstString, Equal, Error,
    Greater, GreaterEqual, Identifier, KwBoolean, KwDo, KwElse, KwFloat, KwFor, KwIf, KwInt,
    KwPrintf, KwReturn, KwVoid, KwWhile, LeftBrace, LeftParenthesis, Less, LessEqual, Minus,
    NotEqual, Or, Plus, RightBrace, RightParenthesis, Semicolon, Slash,
};
use lib::parser::C1Parser;

fn kinds(text: &str) -> Vec<C1Token> {
    tokenize(&chars_of(text)).iter().map(|d| d.token).collect()
}

fn lines(text: &str) -> Vec<usize> {
    tokenize(&chars_of(text)).iter().map(|d| d.line).collect()
}

fn err(result: Result<(), String>) -> String {
    match result {
        Ok(()) => panic!("expected a failure"),
        Err(message) => message,
    }
}

#[test]
fn keywords_operators_and_constants() {
    assert_eq!(
        kinds("bool do else float for if int printf return void while"),
        vec![KwBoolean, KwDo, KwElse, KwFloat, KwFor, KwIf, KwInt, KwPrintf, KwReturn, KwVoid, KwWhile]
    );
    assert_eq!(
        kinds("+ - * / = == != < > <= >= && || , ; ( ) { }"),
        vec![
            Plus, Minus, Asterisk, Slash, Assign, Equal, NotEqual, Less, Greater, LessEqual,
            GreaterEqual, And, Or, Comma, Semicolon, LeftParenthesis, RightParenthesis, LeftBrace,
            RightBrace
        ]
    );
    assert_eq!(
        kinds("42 1.5 .5 2e10 3.0E-2 true false \"text\" x_1 _y bool2"),
        vec![
            ConstInt, ConstFloat, ConstFloat, ConstFloat, ConstFloat, ConstBoolean, ConstBoolean,
            ConstString, Identifier, Identifier, Identifier
        ]
    );
}

#[test]
fn longest_match_and_errors() {
    assert_eq!(kinds("a<=b"), vec![Identifier, LessEqual, Identifier]);
    assert_eq!(kinds("x==y=z"), vec![Identifier, Equal, Identifier, Assign, Identifier]);
    assert_eq!(kinds("3e"), vec![ConstInt, Identifier]);
    assert_eq!(kinds("1."), vec![ConstInt, Error]);
    assert_eq!(kinds("! & | # \"open"), vec![Error, Error, Error, Error, Error, Identifier]);
    assert_eq!(kinds("a/*b"), vec![Identifier, Slash, Asterisk, Identifier]);
}

#[test]
fn blanks_and_comments_have_no_tokens() {
    assert_eq!(kinds(" \t\r\n\u{c}"), vec![]);
    assert_eq!(kinds("// just a comment"), vec![]);
    assert_eq!(kinds("/* one\ntwo */"), vec![]);
    assert_eq!(kinds("a // rest\nb /* c */ d"), vec![C1Token::Identifier; 3]);
}

#[test]
fn token_lines_count_line_breaks() {
    assert_eq!(lines("a\nb c\n\n/* x\ny */ d"), vec![1, 2, 2, 5]);
    let text = "x\ny\n\nz";
    let found = lines(text);
    assert!(found.windows(2).all(|w| w[0] <= w[1]));
    assert!(found.iter().all(|&l| l >= 1));
    assert_eq!(
        tokenize(&chars_of("if\n(")),
        vec![
            TokenData { token: C1Token::KwIf, line: 1 },
            TokenData { token: C1Token::LeftParenthesis, line: 2 }
        ]
    );
}

#[test]
fn lexer_cursor() {
    let mut lexer = C1Lexer::new("int\n main");
    assert_eq!(lexer.current_token(), Some(C1Token::KwInt));
    assert_eq!(lexer.current_line_number(), Some(1));
    lexer.eat();
    assert_eq!(lexer.current_token(), Some(C1Token::Identifier));
    assert_eq!(lexer.current_line_number(), Some(2));
    lexer.eat();
    assert_eq!(lexer.current_token(), None);
    assert_eq!(lexer.current_line_number(), None);
    lexer.eat();
    assert_eq!(lexer.current_token(), None);
}

#[test]
fn failure_messages_name_the_line() {
    assert_eq!(err(C1Parser::parse("  bool  ")), "Expected: ID () { in Line:Unknown");
    assert_eq!(err(C1Parser::parse("int x = 0;")), "Expected: ID () { in Line:1");
    assert_eq!(
        err(C1Parser::parse("// A valid comment\nInvalid line.")),
        "Expected: KwBoolean or KwFloat or KwInt or KwVoid or EOF in Line:2"
    );
    let mut text = String::new();
    for _ in 0..12 {
        text.push('\n');
    }
    text.push_str("oops");
    assert_eq!(
        err(C1Parser::parse(&text)),
        "Expected: KwBoolean or KwFloat or KwInt or KwVoid or EOF in Line:13"
    );
    assert_eq!(
        err(C1Parser::parse("void f() {\n x = 1\n}")),
        "Expected: * or / or && or > or < or >= or <= or == or != or ) or ; or + or - or || in Line:3"
    );
    assert_eq!(err(C1Parser::parse("void f() {\n g()\n}")), "Expected: ; in Line:3");
    assert_eq!(err(C1Parser::parse("void f() {")), "Expected: } in Line:Unknown");
}

#[test]
fn failure_messages_of_each_rule() {
    let mut p = C1Parser::initialize_parser("x");
    assert_eq!(err(p.return_type()), "Expected: KwBoolean or KwFloat or KwInt or KwVoid in Line:1");
    let mut p = C1Parser::initialize_parser("x");
    assert_eq!(err(p.functiondefinition()), "Expected: KwBoolean or KwFloat or KwInt or KwVoid in Line:1");
    let mut p = C1Parser::initialize_parser("1");
    assert_eq!(err(p.function_call()), "Expected: ID in Line:1");
    let mut p = C1Parser::initialize_parser("f(");
    assert_eq!(err(p.function_call()), "Expected: () in Line:1");
    let mut p = C1Parser::initialize_parser(";");
    assert_eq!(err(p.statement_list()), "Expected: { or ID or KwIf or KwReturn or KwPrintf or } in Line:1");
    let mut p = C1Parser::initialize_parser("}");
    assert_eq!(err(p.block()), "Expected: { or ID or KwIf or KwReturn or KwPrintf in Line:1");
    let mut p = C1Parser::initialize_parser("{");
    assert_eq!(err(p.statement()), "Expected: KwIf or KwReturn or KwPrintf or ID in Line:1");
    let mut p = C1Parser::initialize_parser(";");
    assert_eq!(err(p.statement2()), "Expected: ( or = in Line:1");
    let mut p = C1Parser::initialize_parser("x");
    assert_eq!(err(p.if_statement()), "Expected: KwIf in Line:1");
    let mut p = C1Parser::initialize_parser("if x");
    assert_eq!(err(p.if_statement()), "Expected: ( in Line:1");
    let mut p = C1Parser::initialize_parser("if (x;");
    assert_eq!(err(p.if_statement()), "Expected: ) in Line:1");
    let mut p = C1Parser::initialize_parser("x");
    assert_eq!(err(p.return_statement()), "Expected: KwReturn in Line:1");
    let mut p = C1Parser::initialize_parser("}");
    assert_eq!(
        err(p.return_statement2()),
        "Expected: ID or - or ConstInt or ConstFloat or ConstBoolean or ( or ;1"
    );
    let mut p = C1Parser::initialize_parser("x");
    assert_eq!(err(p.printf()), "Expected: KwPrintf in Line:1");
    let mut p = C1Parser::initialize_parser("x y");
    assert_eq!(err(p.stat_assignment()), "Expected: ID = in Line:1");
    let mut p = C1Parser::initialize_parser("y");
    assert_eq!(err(p.stat_assignment2()), "Expected: = in Line:1");
    let mut p = C1Parser::initialize_parser("}");
    assert_eq!(
        err(p.assignment()),
        "Expected: <ID> or - or ConstInt or ConstFloat or ConstBoolean or ( in Line:1"
    );
    let mut p = C1Parser::initialize_parser("}");
    assert_eq!(
        err(p.assignment2()),
        "Expected: = or + or - or * or / or || or && or > or >= or < or <= or == or != or ( or ) or ; in Line:1"
    );
    let mut p = C1Parser::initialize_parser("}");
    assert_eq!(err(p.expr2()), "Expected: > or >= or < or <= or == or != or ) or ; in Line:1");
    let mut p = C1Parser::initialize_parser("}");
    assert_eq!(err(p.operator()), "Expected: > or >= or < or <= or == or != in Line:1");
    let mut p = C1Parser::initialize_parser("}");
    assert_eq!(
        err(p.simpexpr2()),
        "Expected: + or - or || or > or >= or < or <= or == or != or ) or ; in Line:1"
    );
    let mut p = C1Parser::initialize_parser("}");
    assert_eq!(
        err(p.simpexproi()),
        "Expected: ConstInt or ConstFloat or ConstBoolean or Identifier or ( in Line:1"
    );
    let mut p = C1Parser::initialize_parser("}");
    assert_eq!(
        err(p.term2()),
        "Expected: * or / or && or > or < or >= or <= or == or != or ) or ; or + or - or || in Line:1"
    );
    let mut p = C1Parser::initialize_parser("}");
    assert_eq!(
        err(p.factor()),
        "Expected: ConstInt or ConstFloat or ConstBoolean or Identifier or ( in Line:1"
    );
    let mut p = C1Parser::initialize_parser("}");
    assert_eq!(
        err(p.factor2()),
        "Expected: ( or ) or ; or > or < or >= or <= or == or != or + or - or || or * or / or && in Line:1"
    );
    let mut p = C1Parser::initialize_parser("x");
    assert_eq!(err(p.factoroi()), "Expected: ConstInt or ConstFloat or ConstBoolean or ( in Line:1");
}

#[test]
fn expressions() {
    let mut p = C1Parser::initialize_parser("a < b");
    assert!(p.expr().is_ok());
    assert_eq!(p.current_token(), None);
    let mut p = C1Parser::initialize_parser("-a * (b + c) >= f()");
    assert!(p.expr().is_ok());
    let mut p = C1Parser::initialize_parser("a < b < c");
    assert!(p.expr().is_ok());
    assert_eq!(p.current_token(), Some(C1Token::Less));
    let mut p = C1Parser::initialize_parser("x = y = -3 * 2.5 || z");
    assert!(p.assignment().is_ok());
    let mut p = C1Parser::initialize_parser("(1) ;");
    assert!(p.exproi().is_ok());
    assert_eq!(p.current_token(), Some(C1Token::Semicolon));
    let mut p = C1Parser::initialize_parser("+ 1 == 2");
    assert!(p.exprmi().is_ok());
    assert_eq!(p.current_token(), None);
    let mut p = C1Parser::initialize_parser("* b - c");
    assert!(p.simpexprmi().is_ok());
    let mut p = C1Parser::initialize_parser("() * 2");
    assert!(p.termmi().is_ok());
    let mut p = C1Parser::initialize_parser("2 / x");
    assert!(p.termoi().is_ok());
    let mut p = C1Parser::initialize_parser("- y");
    assert!(p.simpexpr().is_ok());
    let mut p = C1Parser::initialize_parser("x * y");
    assert!(p.term().is_ok());
}

#[test]
fn statements() {
    let mut p = C1Parser::initialize_parser("if (a) { printf(a); return; } x = 1;");
    assert!(p.statement_list().is_ok());
    assert_eq!(p.current_token(), None);
    let mut p = C1Parser::initialize_parser("{ } }");
    assert!(p.block().is_ok());
    assert_eq!(p.current_token(), Some(C1Token::RightBrace));
    let mut p = C1Parser::initialize_parser("f();");
    assert!(p.statement().is_ok());
    let mut p = C1Parser::initialize_parser("return x = 2;");
    assert!(p.statement().is_ok());
    let mut p = C1Parser::initialize_parser("(");
    assert_eq!(err(p.function_call2()), "Expected: () in Line:1");
}

#[test]
fn a_program_is_consumed_to_the_end() {
    assert!(C1Parser::parse("void a() {} int b() { return 1; }").is_ok());
    let mut p = C1Parser::initialize_parser("void a() {} int b() { return 1; }");
    assert!(p.program().is_ok());
    assert_eq!(p.current_token(), None);
    assert_eq!(
        err(C1Parser::parse("void a() {} x")),
        "Expected: KwBoolean or KwFloat or KwInt or KwVoid or EOF in Line:1"
    );
}

#[test]
fn checking_a_token_sequence() {
    let mut p = C1Parser::initialize_parser("f ( ) x");
    let r = p.check_and_eat_tokens(
        &[C1Token::Identifier, C1Token::LeftParenthesis, C1Token::RightParenthesis],
        "m",
    );
    assert_eq!(r, Ok(()));
    assert_eq!(p.current_token(), Some(C1Token::Identifier));

    let mut p = C1Parser::initialize_parser("( ) x");
    let r = p.check_and_eat_tokens(
        &[C1Token::Identifier, C1Token::LeftParenthesis, C1Token::RightParenthesis],
        "m",
    );
    assert_eq!(r, Err("m".to_string()));

    let mut p = C1Parser::initialize_parser("f");
    assert_eq!(p.check_and_eat_token(&C1Token::Identifier, "m"), Ok(()));
    assert_eq!(p.current_token(), None);
    let mut p = C1Parser::initialize_parser("f");
    assert_eq!(p.check_and_eat_token(&C1Token::Semicolon, "m"), Err("m".to_string()));
    assert_eq!(p.current_token(), Some(C1Token::Identifier));
}

#[test]
fn looking_at_the_current_token() {
    let p = C1Parser::initialize_parser("x\n\n y");
    assert!(p.current_matches(&C1Token::Identifier));
    assert!(!p.current_matches(&C1Token::KwIf));
    assert!(p.any_match_current(&[C1Token::KwIf, C1Token::Identifier]));
    assert!(!p.any_match_current(&[C1Token::KwIf, C1Token::Semicolon]));
    assert!(!p.any_match_current(&[]));
    assert_eq!(p.get_line(), "1");
    let mut p = C1Parser::initialize_parser("");
    assert!(!p.current_matches(&C1Token::Identifier));
    assert_eq!(p.get_line(), "Unknown");
    assert!(p.statement_list().is_ok());
}

#[test]
fn a_failure_leaves_the_cursor_where_the_rule_stopped() {
    let mut p = C1Parser::initialize_parser("x");
    assert!(p.return_type().is_err());
    assert_eq!(p.current_token(), Some(Identifier));
    let mut p = C1Parser::initialize_parser("x");
    assert!(p.operator().is_err());
    assert_eq!(p.current_token(), Some(Identifier));
    let mut p = C1Parser::initialize_parser("}");
    assert!(p.statement().is_err());
    assert_eq!(p.current_token(), Some(RightBrace));
    let mut p = C1Parser::initialize_parser("x");
    assert!(p.program().is_err());
    assert_eq!(p.current_token(), Some(Identifier));
    let mut p = C1Parser::initialize_parser("void f() { x = 1 }");
    assert!(p.program().is_err());
    assert_eq!(p.current_token(), Some(RightBrace));
    let mut p = C1Parser::initialize_parser("f )\n x");
    assert_eq!(
        p.check_and_eat_tokens(&[Identifier, LeftParenthesis, RightParenthesis], "m"),
        Err("m".to_string())
    );
    assert_eq!(p.current_token(), Some(Identifier));
    assert_eq!(p.current_line_number(), Some(2));
}

#[test]
fn the_parser_reports_the_current_line() {
    let mut p = C1Parser::initialize_parser("a\n\nb");
    assert_eq!(p.current_line_number(), Some(1));
    p.eat();
    assert_eq!(p.current_line_number(), Some(3));
    p.eat();
    assert_eq!(p.current_line_number(), None);
}

#[test]
fn success_depends_only_on_token_kinds() {
    let pairs = [
        ("void a() { x = 1; }", "int bar23( ) {\n y = 2.5 ; }"),
        ("void a() { f(); }", "bool b() { /* c */ g ( ) ; }"),
        ("void a() { x = ; }", "int b() { y = ; }"),
        ("x", "// c\n y"),
    ];
    for (a, b) in pairs {
        assert_eq!(C1Parser::parse(a).is_ok(), C1Parser::parse(b).is_ok());
    }
}

#[test]
fn joined_programs_form_a_program() {
    let a = "void a() { x = 1; }";
    let b = "int b() { return 1; }";
    assert!(C1Parser::parse(a).is_ok());
    assert!(C1Parser::parse(b).is_ok());
    assert!(C1Parser::parse(&format!("{}\n{}", a, b)).is_ok());
    assert!(C1Parser::parse(&format!("{}\n{}", a, "")).is_ok());
}

#[test]
fn tokens_after_the_last_definition_are_rejected() {
    let a = "void a() { x = 1; }";
    for b in ["x", ";", "}", "return 1;"] {
        assert!(C1Parser::parse(&format!("{} {}", a, b)).is_err());
    }
}
