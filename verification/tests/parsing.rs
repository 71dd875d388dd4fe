use amber_core::block::Block;
use amber_core::diagnostics::Failure;
use amber_core::emitter::TranslateMetadata;
use amber_core::expression::{Expr, Lt};
use amber_core::parser::{ParserMetadata, Token};
use amber_core::types::Type;
use amber_core::variable::VariableGet;

fn meta_of(words: &[&str]) -> ParserMetadata {
    let mut tokens: Vec<Token> = Vec::new();
    let mut position: usize = 0;
    for w in words {
        tokens.push(Token { word: (*w).to_string(), position });
        position += 1;
    }
    ParserMetadata::new(tokens)
}

#[test]
fn comparison_of_numbers_is_boolean() {
    let mut meta = meta_of(&["3", "<", "5"]);
    let mut lt = Lt::new();
    assert!(lt.parse(&mut meta).is_ok());
    assert_eq!(lt.get_type(), Type::Bool);
    let mut emit = TranslateMetadata::new();
    assert_eq!(lt.translate(&mut emit), "$(( 3 < 5 ))");
}

#[test]
fn comparison_type_mismatch_is_loud() {
    let mut meta = meta_of(&["true", "<", "5"]);
    let mut lt = Lt::new();
    match lt.parse(&mut meta) {
        Err(Failure::Loud(m)) => {
            assert_eq!(m.text, "Cannot compare two values of different types: Bool and Num");
            assert_eq!(m.position, 1);
        },
        _ => panic!("a Boolean operand must fail the comparison loudly"),
    }
}

#[test]
fn comparison_rejects_types_outside_allowed_set() {
    let mut meta = meta_of(&["true", "<", "false"]);
    let mut lt = Lt::new();
    match lt.parse(&mut meta) {
        Err(Failure::Loud(m)) => {
            assert_eq!(m.text, "Cannot compare two values of different types: Bool and Bool");
        },
        _ => panic!("matching but non-numeric operand types must fail loudly"),
    }
}

#[test]
fn declared_variable_resolves_to_its_type() {
    let mut meta = meta_of(&["x"]);
    meta.mem.push_scope();
    meta.mem.add_variable("x".to_string(), Type::Num);
    let mut get = VariableGet::new();
    assert!(get.parse(&mut meta).is_ok());
    assert_eq!(get.get_type(), Type::Num);
    let mut emit = TranslateMetadata::new();
    assert_eq!(get.translate(&mut emit), "${x}");
}

#[test]
fn undeclared_variable_is_loud_and_named() {
    let mut meta = meta_of(&["y"]);
    let mut get = VariableGet::new();
    match get.parse(&mut meta) {
        Err(Failure::Loud(m)) => {
            assert_eq!(m.text, "Variable 'y' does not exist");
            assert_eq!(m.position, 0);
        },
        _ => panic!("an undeclared name must fail loudly"),
    }
}

#[test]
fn expression_falls_back_to_single_operand() {
    let mut meta = meta_of(&["7"]);
    let mut expr = Expr::new();
    assert!(expr.parse(&mut meta).is_ok());
    assert!(matches!(expr, Expr::Number { .. }));
    assert_eq!(meta.index, 1);
}

#[test]
fn quiet_failure_leaves_cursor_untouched() {
    let mut meta = meta_of(&["<"]);
    let mut expr = Expr::new();
    match expr.parse(&mut meta) {
        Err(Failure::Quiet(p)) => assert_eq!(p, 0),
        _ => panic!("a grammar mismatch must fail quietly"),
    }
    assert_eq!(meta.index, 0);
}

#[test]
fn block_wraps_quiet_failure_into_diagnostic() {
    let mut meta = meta_of(&["<"]);
    let mut block = Block::new();
    match block.parse(&mut meta) {
        Err(Failure::Loud(m)) => {
            assert_eq!(m.text, "Unexpected token");
            assert_eq!(m.position, 0);
        },
        _ => panic!("the statement loop must wrap quiet failures"),
    }
}

#[test]
fn block_leaves_terminator_for_caller() {
    let mut meta = meta_of(&["3", ";", "}"]);
    let mut block = Block::new();
    assert!(block.parse(&mut meta).is_ok());
    assert!(!block.is_empty());
    assert_eq!(meta.index, 2);
}

#[test]
fn block_skips_separators_and_comments() {
    let mut meta = meta_of(&["\n", "#note", "3"]);
    let mut block = Block::new();
    assert!(block.parse(&mut meta).is_ok());
    let mut emit = TranslateMetadata::new();
    assert_eq!(block.translate(&mut emit), "    3");
}

#[test]
fn block_scope_pops_on_success() {
    let mut meta = meta_of(&["let", "x", "=", "3"]);
    meta.mem.push_scope();
    meta.mem.add_variable("outer".to_string(), Type::Num);
    let mut block = Block::new();
    assert!(block.parse(&mut meta).is_ok());
    assert_eq!(meta.mem.get_variable(&"x".to_string()), None);
    assert_eq!(meta.mem.get_variable(&"outer".to_string()), Some(Type::Num));
}

#[test]
fn block_scope_pops_on_failure() {
    let mut meta = meta_of(&["let", "x", "=", "3", ";", "zz"]);
    meta.mem.push_scope();
    meta.mem.add_variable("outer".to_string(), Type::Num);
    let mut block = Block::new();
    match block.parse(&mut meta) {
        Err(Failure::Loud(m)) => assert_eq!(m.text, "Variable 'zz' does not exist"),
        _ => panic!("the undeclared reference must fail loudly"),
    }
    assert_eq!(meta.mem.get_variable(&"x".to_string()), None);
    assert_eq!(meta.mem.get_variable(&"outer".to_string()), Some(Type::Num));
}

#[test]
fn declaration_is_visible_to_later_statements() {
    let mut meta = meta_of(&["let", "x", "=", "3", "\n", "x"]);
    let mut block = Block::new();
    assert!(block.parse(&mut meta).is_ok());
    let mut emit = TranslateMetadata::new();
    assert_eq!(block.translate(&mut emit), "    x=3;\n    ${x}");
}

#[test]
fn declared_variable_joins_a_comparison() {
    let mut meta = meta_of(&["let", "x", "=", "3", "\n", "x", "<", "5"]);
    let mut block = Block::new();
    assert!(block.parse(&mut meta).is_ok());
    let mut emit = TranslateMetadata::new();
    assert_eq!(block.translate(&mut emit), "    x=3;\n    $(( ${x} < 5 ))");
}

#[test]
fn chained_comparison_needs_numeric_right_side() {
    let mut meta = meta_of(&["3", "<", "5", "<", "7"]);
    let mut expr = Expr::new();
    match expr.parse(&mut meta) {
        Err(Failure::Loud(m)) => {
            assert_eq!(m.text, "Cannot compare two values of different types: Num and Bool");
        },
        _ => panic!("a Boolean right-hand comparison must fail the outer type check"),
    }
}

#[test]
fn boolean_literal_is_an_expression() {
    let mut meta = meta_of(&["true"]);
    let mut expr = Expr::new();
    assert!(expr.parse(&mut meta).is_ok());
    assert_eq!(expr.get_type(), Type::Bool);
    let mut emit = TranslateMetadata::new();
    assert_eq!(expr.translate(&mut emit), "1");
}

#[test]
fn newer_declaration_shadows_older_one() {
    let mut meta = meta_of(&["let", "x", "=", "3", "\n", "let", "x", "=", "true", "\n", "x"]);
    let mut block = Block::new();
    assert!(block.parse(&mut meta).is_ok());
    let mut emit = TranslateMetadata::new();
    assert_eq!(block.translate(&mut emit), "    x=3;\n    x=1;\n    ${x}");
}

#[test]
fn unexpected_token_is_anchored_at_its_position() {
    let mut meta = meta_of(&["3", "\n", "<"]);
    let mut block = Block::new();
    match block.parse(&mut meta) {
        Err(Failure::Loud(m)) => {
            assert_eq!(m.text, "Unexpected token");
            assert_eq!(m.position, 2);
        },
        _ => panic!("a stray operator must be wrapped as a generic diagnostic"),
    }
    assert!(!block.is_empty());
}

#[test]
fn propagated_diagnostic_keeps_message_and_position() {
    let mut meta = meta_of(&["3", ";", "true", "<", "5"]);
    let mut block = Block::new();
    match block.parse(&mut meta) {
        Err(Failure::Loud(m)) => {
            assert_eq!(m.text, "Cannot compare two values of different types: Bool and Num");
            assert_eq!(m.position, 3);
        },
        _ => panic!("a semantic diagnostic must pass through the statement loop unchanged"),
    }
}
