use tinyscript::ast::LeafOrder;
use tinyscript::parser::ParseError;
use tinyscript::{parse, tokenize, ASTNode, Token};

fn parse_src(src: &str) -> Result<ASTNode, ParseError> {
    parse(tokenize(src).unwrap())
}

#[test]
fn empty_program_parses() {
    let ast = parse_src("").unwrap();
    assert!(matches!(ast, ASTNode::Program(stmts) if stmts.is_empty()));
}

#[test]
fn flat_precedence_parses_left_to_right() {
    // 1 + 2 * 3 parses as (1 + 2) * 3: one flat tier, left-associative.
    let ast = parse_src("p 1 + 2 * 3").unwrap();
    let stmts = match ast {
        ASTNode::Program(stmts) => *stmts,
        other => panic!("expected a program, got {:?}", other),
    };
    assert_eq!(stmts.len(), 1);
    match &stmts[0] {
        ASTNode::Print(e) => match &**e {
            ASTNode::Binary(l, Token::Asterisk, r) => {
                assert!(matches!(&**r, ASTNode::Number(3)));
                match &**l {
                    ASTNode::Binary(ll, Token::Plus, lr) => {
                        assert!(matches!(&**ll, ASTNode::Number(1)));
                        assert!(matches!(&**lr, ASTNode::Number(2)));
                    },
                    other => panic!("expected 1 + 2 on the left, got {:?}", other),
                }
            },
            other => panic!("expected a multiplication at the top, got {:?}", other),
        },
        other => panic!("expected a print statement, got {:?}", other),
    }
}

#[test]
fn unary_minus_binds_the_whole_trailing_expression() {
    let ast = parse_src("p -3 + 2").unwrap();
    let stmts = match ast {
        ASTNode::Program(stmts) => *stmts,
        other => panic!("expected a program, got {:?}", other),
    };
    match &stmts[0] {
        ASTNode::Print(e) => match &**e {
            ASTNode::Unary(Token::Minus, inner) => match &**inner {
                ASTNode::Binary(l, Token::Plus, r) => {
                    assert!(matches!(&**l, ASTNode::Number(3)));
                    assert!(matches!(&**r, ASTNode::Number(2)));
                },
                other => panic!("expected 3 + 2 under the minus, got {:?}", other),
            },
            other => panic!("expected a unary minus, got {:?}", other),
        },
        other => panic!("expected a print statement, got {:?}", other),
    }
}

#[test]
fn statement_expected_error_names_the_token() {
    assert!(matches!(parse_src("}"), Err(ParseError::ExpectedStatement(Token::RightBrace))));
}

#[test]
fn declaration_demands_an_identifier() {
    assert!(matches!(parse_src("v 1 = 2"), Err(ParseError::ExpectedIdentifier(Token::Number(1)))));
}

#[test]
fn while_demands_a_brace_after_the_condition() {
    assert!(matches!(parse_src("w true p 1"), Err(ParseError::ExpectedToken(Token::LeftBrace, Token::Print))));
}

#[test]
fn identifier_statement_demands_assignment_or_call() {
    assert!(matches!(parse_src("x + 1"), Err(ParseError::ExpectedAssignOp(Token::Plus))));
}

#[test]
fn factor_expected_at_end_of_input() {
    assert!(matches!(parse_src("p"), Err(ParseError::ExpectedFactor(Token::EndOfFile))));
}

#[test]
fn unknown_character_surfaces_as_a_parse_error() {
    assert!(matches!(parse_src("p $"), Err(ParseError::ExpectedFactor(Token::Unknown))));
}

#[test]
fn unclosed_paren_is_an_error() {
    assert!(matches!(parse_src("p (1 + 2"), Err(ParseError::ExpectedToken(Token::RightParen, Token::EndOfFile))));
}

#[test]
fn double_ampersand_fails_to_parse() {
    // `&` is the single-character and-operator; `&&` is two of them, and
    // the second cannot start a term.
    assert!(matches!(parse_src("p true && false"), Err(ParseError::ExpectedFactor(Token::And))));
}

#[test]
fn function_call_statement_parses() {
    let ast = parse_src("inc!").unwrap();
    let stmts = match ast {
        ASTNode::Program(stmts) => *stmts,
        other => panic!("expected a program, got {:?}", other),
    };
    assert!(matches!(&stmts[0], ASTNode::FunctionCall(name) if name == "inc"));
}

#[test]
fn leaf_eq_compares_leaves_only() {
    let a = ASTNode::Number(3);
    let b = ASTNode::Number(3);
    let c = ASTNode::Number(4);
    let s = ASTNode::String(String::from("x"));
    let t = ASTNode::String(String::from("x"));
    assert_eq!(a.leaf_eq(&b), Some(true));
    assert_eq!(a.leaf_eq(&c), Some(false));
    assert_eq!(s.leaf_eq(&t), Some(true));
    assert_eq!(a.leaf_eq(&s), None);
    let p = ASTNode::Print(Box::new(ASTNode::Number(1)));
    let q = ASTNode::Print(Box::new(ASTNode::Number(1)));
    assert_eq!(p.leaf_eq(&q), None);
}

#[test]
fn leaf_cmp_orders_numbers_and_strings_only() {
    assert_eq!(
        ASTNode::Number(1).leaf_cmp(&ASTNode::Number(2)),
        Some(LeafOrder::Less)
    );
    assert_eq!(
        ASTNode::Number(2).leaf_cmp(&ASTNode::Number(2)),
        Some(LeafOrder::Equal)
    );
    assert_eq!(
        ASTNode::Number(3).leaf_cmp(&ASTNode::Number(2)),
        Some(LeafOrder::Greater)
    );
    let s = |t: &str| ASTNode::String(String::from(t));
    assert_eq!(s("ab").leaf_cmp(&s("b")), Some(LeafOrder::Less));
    assert_eq!(s("ab").leaf_cmp(&s("ab")), Some(LeafOrder::Equal));
    assert_eq!(s("b").leaf_cmp(&s("ab")), Some(LeafOrder::Greater));
    assert_eq!(s("ab").leaf_cmp(&s("abc")), Some(LeafOrder::Less));
    assert_eq!(ASTNode::Number(1).leaf_cmp(&s("1")), None);
    assert_eq!(
        ASTNode::Identifier(String::from("x")).leaf_cmp(&ASTNode::Identifier(String::from("x"))),
        None
    );
}
