use amber_core::block::Block;
use amber_core::compute::{translate_computation, ArithOp};
use amber_core::emitter::TranslateMetadata;
use amber_core::expression::Expr;
use amber_core::parser::{ParserMetadata, Token};
use amber_core::statement::Statement;
use amber_core::types::Type;
use amber_core::variable::VariableGet;

#[test]
fn empty_block_renders_placeholder() {
    let tokens = vec![Token { word: "\n".to_string(), position: 0 }];
    let mut meta = ParserMetadata::new(tokens);
    let mut block = Block::new();
    assert!(block.parse(&mut meta).is_ok());
    assert!(block.is_empty());
    let mut emit = TranslateMetadata::new();
    assert_eq!(block.translate(&mut emit), ":");
}

#[test]
fn scopeless_empty_block_renders_placeholder() {
    let mut block = Block::new();
    block.set_scopeless();
    let mut emit = TranslateMetadata::new();
    assert_eq!(block.translate(&mut emit), ":");
}

#[test]
fn two_statements_join_at_level_one() {
    let mut block = Block::new();
    block.push_statement(Statement::Expression(Expr::Number { value: "3".to_string() }));
    block.push_statement(Statement::Expression(Expr::Number { value: "5".to_string() }));
    let mut emit = TranslateMetadata::new();
    assert_eq!(block.translate(&mut emit), "    3;\n    5");
    assert_eq!(emit.indent, 0);
}

#[test]
fn scopeless_block_keeps_the_surrounding_level() {
    let mut block = Block::new();
    block.set_scopeless();
    block.push_statement(Statement::Expression(Expr::Number { value: "3".to_string() }));
    block.push_statement(Statement::Expression(Expr::Number { value: "5".to_string() }));
    let mut emit = TranslateMetadata::new();
    assert_eq!(block.translate(&mut emit), "3;\n5");
}

#[test]
fn variable_read_renders_parameter_substitution() {
    let get = VariableGet { name: "name".to_string(), kind: Type::Text };
    let mut emit = TranslateMetadata::new();
    assert_eq!(get.translate(&mut emit), "${name}");
}

#[test]
fn declaration_renders_assignment() {
    let statement = Statement::VariableInit(amber_core::statement::VariableInit {
        name: "x".to_string(),
        expr: Expr::BoolLit { value: true },
    });
    let mut emit = TranslateMetadata::new();
    assert_eq!(statement.translate(&mut emit), "x=1");
}

#[test]
fn dispatcher_renders_comparison_tag() {
    let emit = TranslateMetadata::new();
    let rendered = translate_computation(
        &emit,
        ArithOp::Lt,
        Some("3".to_string()),
        Some("5".to_string()),
    );
    assert_eq!(rendered, "$(( 3 < 5 ))");
}

#[test]
fn indent_string_is_four_spaces_per_level() {
    let mut emit = TranslateMetadata::new();
    assert_eq!(emit.gen_indent(), "");
    emit.increase_indent();
    emit.increase_indent();
    assert_eq!(emit.gen_indent(), "        ");
    emit.decrease_indent();
    assert_eq!(emit.gen_indent(), "    ");
}

#[test]
fn boolean_literals_render_as_digits() {
    let mut emit = TranslateMetadata::new();
    assert_eq!(Expr::BoolLit { value: true }.translate(&mut emit), "1");
    assert_eq!(Expr::BoolLit { value: false }.translate(&mut emit), "0");
}

#[test]
fn nested_levels_prefix_deeper_indent() {
    let mut block = Block::new();
    block.push_statement(Statement::Expression(Expr::Number { value: "7".to_string() }));
    let mut emit = TranslateMetadata::new();
    emit.increase_indent();
    assert_eq!(block.translate(&mut emit), "        7");
    assert_eq!(emit.indent, 1);
}
