use amber_core::diagnostics::Failure;
use amber_core::expression::expression_arms_of_type;
use amber_core::memory::ScopeMemory;
use amber_core::parser::{word_is_name, word_is_number, ParserMetadata, Token};
use amber_core::types::Type;
use amber_core::variable::handle_variable_reference;

#[test]
fn resolution_searches_innermost_scope_first() {
    let mut mem = ScopeMemory::new();
    mem.push_scope();
    mem.add_variable("x".to_string(), Type::Num);
    mem.push_scope();
    mem.add_variable("x".to_string(), Type::Bool);
    assert_eq!(mem.get_variable(&"x".to_string()), Some(Type::Bool));
    mem.pop_scope();
    assert_eq!(mem.get_variable(&"x".to_string()), Some(Type::Num));
}

#[test]
fn outer_scopes_stay_visible_from_inner_ones() {
    let mut mem = ScopeMemory::new();
    mem.push_scope();
    mem.add_variable("outer".to_string(), Type::Text);
    mem.push_scope();
    assert_eq!(mem.get_variable(&"outer".to_string()), Some(Type::Text));
    assert_eq!(mem.get_variable(&"inner".to_string()), None);
}

#[test]
fn popped_bindings_are_gone() {
    let mut mem = ScopeMemory::new();
    mem.push_scope();
    mem.push_scope();
    mem.add_variable("tmp".to_string(), Type::Num);
    mem.pop_scope();
    assert_eq!(mem.get_variable(&"tmp".to_string()), None);
}

#[test]
fn newer_binding_of_a_name_wins_within_a_scope() {
    let mut mem = ScopeMemory::new();
    mem.push_scope();
    mem.add_variable("x".to_string(), Type::Num);
    mem.add_variable("x".to_string(), Type::Text);
    assert_eq!(mem.get_variable(&"x".to_string()), Some(Type::Text));
}

#[test]
fn type_check_accepts_matching_numeric_operands() {
    let allowed = vec![Type::Num];
    let base = "Cannot compare two values of different types".to_string();
    assert!(expression_arms_of_type(Type::Num, Type::Num, &allowed, 4, &base).is_ok());
}

#[test]
fn type_check_cites_both_operand_types() {
    let allowed = vec![Type::Num];
    let base = "Cannot compare two values of different types".to_string();
    match expression_arms_of_type(Type::Num, Type::Text, &allowed, 4, &base) {
        Err(Failure::Loud(m)) => {
            assert_eq!(m.text, "Cannot compare two values of different types: Num and Text");
            assert_eq!(m.position, 4);
        },
        _ => panic!("mismatched operand types must fail loudly"),
    }
}

#[test]
fn reference_helper_resolves_or_raises() {
    let tokens = vec![Token { word: "a".to_string(), position: 9 }];
    let mut meta = ParserMetadata::new(tokens);
    meta.mem.push_scope();
    meta.mem.add_variable("a".to_string(), Type::Bool);
    match handle_variable_reference(&meta, 9, &"a".to_string()) {
        Ok(t) => assert_eq!(t, Type::Bool),
        _ => panic!("a declared name must resolve"),
    }
    match handle_variable_reference(&meta, 9, &"b".to_string()) {
        Err(Failure::Loud(m)) => {
            assert_eq!(m.text, "Variable 'b' does not exist");
            assert_eq!(m.position, 9);
        },
        _ => panic!("an unresolved name must raise a diagnostic"),
    }
}

#[test]
fn name_and_number_words_are_disjoint_classes() {
    assert!(word_is_name("x1"));
    assert!(word_is_name("_tmp"));
    assert!(!word_is_name("9x"));
    assert!(!word_is_name(""));
    assert!(word_is_number("42"));
    assert!(!word_is_number("4x"));
    assert!(!word_is_number(""));
}
