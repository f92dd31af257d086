use wolf::codegen::compile_program_to_object;
use wolf::codegen::emit::compile_program;
use wolf::codegen::error::{CodegenError, CodegenReason};
use wolf::codegen::ir::{compute, Instruction};
use wolf::codegen::lower::{
    compile_expression, compile_program_statements, compile_statement, CodegenContext,
};
use wolf::syntax::ast::{BinaryOperator, ExpressionNode, ProgramNode, StatementNode};
use wolf::syntax::parse_source;

fn program(source: &str) -> ProgramNode {
    parse_source(source).unwrap()
}

fn value_of(source: &str) -> Option<i64> {
    compile_program_statements(&program(source)).unwrap().evaluate()
}

#[test]
fn declaration_then_reference_returns_five() {
    assert_eq!(value_of("let x = 2 + 3; x;"), Some(5));
}

#[test]
fn rebinding_reuses_the_slot() {
    let function = compile_program_statements(&program("let x = 1; let x = x + 1; x;")).unwrap();
    assert_eq!(function.slot_count(), 1);
    assert_eq!(function.evaluate(), Some(2));
}

#[test]
fn lowers_to_the_expected_instructions() {
    let function = compile_program_statements(&program("let x = 2 + 3; x;")).unwrap();
    assert_eq!(
        function.instructions(),
        &vec![
            Instruction::Constant { value: 2 },
            Instruction::Constant { value: 3 },
            Instruction::Arithmetic { operator: BinaryOperator::Add, left: 0, right: 1 },
            Instruction::Store { source: 2, slot: 0 },
            Instruction::Load { slot: 0 },
        ]
    );
    assert_eq!(function.slot_count(), 1);
    assert_eq!(function.result(), 4);
}

#[test]
fn declaration_is_worth_its_initialiser() {
    let function = compile_program_statements(&program("let x = 7;")).unwrap();
    assert_eq!(
        function.instructions(),
        &vec![Instruction::Constant { value: 7 }, Instruction::Store { source: 0, slot: 0 }]
    );
    assert_eq!(function.result(), 0);
    assert_eq!(function.evaluate(), Some(7));
}

#[test]
fn each_variable_has_its_own_slot() {
    let function =
        compile_program_statements(&program("let a = 1; let b = 2; let a = 3; a * 10 + b;"))
            .unwrap();
    assert_eq!(function.slot_count(), 2);
    assert_eq!(function.evaluate(), Some(32));
}

#[test]
fn left_operand_is_evaluated_first() {
    let function = compile_program_statements(&program("(1 - 2) / (3 * 4);")).unwrap();
    assert_eq!(
        function.instructions(),
        &vec![
            Instruction::Constant { value: 1 },
            Instruction::Constant { value: 2 },
            Instruction::Arithmetic { operator: BinaryOperator::Subtract, left: 0, right: 1 },
            Instruction::Constant { value: 3 },
            Instruction::Constant { value: 4 },
            Instruction::Arithmetic { operator: BinaryOperator::Multiply, left: 3, right: 4 },
            Instruction::Arithmetic { operator: BinaryOperator::Divide, left: 2, right: 5 },
        ]
    );
    assert_eq!(function.evaluate(), Some(0));
}

#[test]
fn arithmetic_follows_the_machine() {
    assert_eq!(value_of("8 - 3 - 2;"), Some(3));
    assert_eq!(value_of("1 + 2 * 3;"), Some(7));
    assert_eq!(value_of("(0 - 7) / 2;"), Some(-3));
    assert_eq!(value_of("7 / (0 - 2);"), Some(-3));
    assert_eq!(value_of("9223372036854775807 + 1;"), Some(i64::MIN));
    assert_eq!(value_of("(0 - 9223372036854775807 - 1) - 1;"), Some(i64::MAX));
    assert_eq!(value_of("4611686018427387904 * 4;"), Some(0));
    assert_eq!(compute(BinaryOperator::Multiply, i64::MAX, 2), Some(-2));
}

#[test]
fn division_traps() {
    assert_eq!(value_of("1 / 0;"), None);
    assert_eq!(value_of("let x = 5; x / (x - 5); 1;"), None);
    assert_eq!(value_of("(0 - 9223372036854775807 - 1) / (0 - 1);"), None);
    assert_eq!(compute(BinaryOperator::Divide, i64::MIN, -1), None);
    assert_eq!(compute(BinaryOperator::Divide, 1, 0), None);
}

#[test]
fn undefined_variable_is_an_error() {
    let error = compile_program_statements(&program("y;")).unwrap_err();
    assert_eq!(error.reason, CodegenReason::UndefinedVariable);
    assert_eq!(error.message, "Undefined variable: y");
    assert_eq!(error.to_string(), "Undefined variable: y");
}

#[test]
fn variable_is_not_known_in_its_own_initialiser() {
    let error = compile_program_statements(&program("let x = x + 1;")).unwrap_err();
    assert_eq!(
        error,
        CodegenError {
            reason: CodegenReason::UndefinedVariable,
            message: "Undefined variable: x".to_string()
        }
    );
}

#[test]
fn first_undefined_name_is_reported() {
    let error = compile_program_statements(&program("let a = 1; a + b * c; d;")).unwrap_err();
    assert_eq!(error.message, "Undefined variable: b");
}

#[test]
fn empty_program_is_an_error() {
    let error = compile_program_statements(&ProgramNode { statements: vec![] }).unwrap_err();
    assert_eq!(
        error,
        CodegenError {
            reason: CodegenReason::EmptyProgram,
            message: "Program had no statements".to_string()
        }
    );
}

#[test]
fn error_constructor_keeps_its_parts() {
    let error = CodegenError::new(CodegenReason::Emission, "no room".to_string());
    assert_eq!(error.reason, CodegenReason::Emission);
    assert_eq!(error.to_string(), "no room");
    let explained = CodegenError::explain(CodegenReason::Target, "Host not supported", "riscv");
    assert_eq!(explained.message, "Host not supported: riscv");
}

#[test]
fn compiles_to_an_object_file_that_exports_main() {
    let bytes = compile_program_to_object(&program("let x = 2 + 3; x;")).unwrap();
    assert!(bytes.len() > 16);
    assert!(bytes.windows(4).any(|window| window == b"main"));
    assert!(bytes.windows(4).any(|window| window == b"wolf"));
}

#[test]
fn object_file_holds_every_kind_of_instruction() {
    let source = "let a = 6; let b = a * 7 - 2; let a = b / a + 1; a;";
    assert_eq!(value_of(source), Some(7));
    let bytes = compile_program(&program(source)).unwrap();
    assert!(bytes.len() > 16);
}

#[test]
fn undefined_variable_stops_object_emission() {
    let error = compile_program_to_object(&program("y;")).unwrap_err();
    assert_eq!(error.reason, CodegenReason::UndefinedVariable);
    assert_eq!(error.message, "Undefined variable: y");
}

#[test]
fn empty_program_stops_object_emission() {
    let error = compile_program_to_object(&program("")).unwrap_err();
    assert_eq!(error.reason, CodegenReason::EmptyProgram);
}

#[test]
fn hand_built_tree_compiles() {
    let tree = ProgramNode {
        statements: vec![StatementNode::ExpressionStatement {
            expression: ExpressionNode::BinaryOperation {
                operator: BinaryOperator::Add,
                left: Box::new(ExpressionNode::NumberLiteral { value: 40 }),
                right: Box::new(ExpressionNode::NumberLiteral { value: 2 }),
            },
        }],
    };
    assert_eq!(compile_program_statements(&tree).unwrap().evaluate(), Some(42));
    assert!(compile_program_to_object(&tree).is_ok());
}

fn number(value: i64) -> ExpressionNode {
    ExpressionNode::NumberLiteral { value }
}

fn name(text: &str) -> ExpressionNode {
    ExpressionNode::IdentifierReference { name: text.to_string() }
}

fn declare(text: &str, value: ExpressionNode) -> StatementNode {
    StatementNode::VariableDeclaration { name: text.to_string(), value }
}

#[test]
fn new_context_is_empty() {
    let context = CodegenContext::new();
    assert!(context.instructions().is_empty());
    assert_eq!(context.find_variable(&"x".to_string()), None);
}

#[test]
fn undefined_name_emits_nothing() {
    let mut context = CodegenContext::new();
    assert_eq!(compile_statement(&declare("x", number(1)), &mut context), Ok(0));
    let before = context.instructions().clone();
    let error = compile_expression(&name("y"), &mut context).unwrap_err();
    assert_eq!(error.reason, CodegenReason::UndefinedVariable);
    assert_eq!(error.message, "Undefined variable: y");
    assert_eq!(context.instructions(), &before);
    assert_eq!(context.find_variable(&"x".to_string()), Some(0));
    assert_eq!(context.find_variable(&"y".to_string()), None);
}

#[test]
fn operands_before_an_undefined_name_stay_emitted() {
    let mut context = CodegenContext::new();
    let sum = ExpressionNode::BinaryOperation {
        operator: BinaryOperator::Add,
        left: Box::new(number(4)),
        right: Box::new(name("missing")),
    };
    assert!(compile_expression(&sum, &mut context).is_err());
    assert_eq!(context.instructions(), &vec![Instruction::Constant { value: 4 }]);
}

#[test]
fn defined_name_is_one_load() {
    let mut context = CodegenContext::new();
    assert_eq!(compile_statement(&declare("x", number(7)), &mut context), Ok(0));
    assert_eq!(compile_expression(&name("x"), &mut context), Ok(2));
    assert_eq!(
        context.instructions(),
        &vec![
            Instruction::Constant { value: 7 },
            Instruction::Store { source: 0, slot: 0 },
            Instruction::Load { slot: 0 },
        ]
    );
}

#[test]
fn failed_initialiser_declares_nothing() {
    let mut context = CodegenContext::new();
    assert_eq!(compile_statement(&declare("a", number(1)), &mut context), Ok(0));
    let error = compile_statement(&declare("b", name("c")), &mut context).unwrap_err();
    assert_eq!(error.message, "Undefined variable: c");
    assert_eq!(context.find_variable(&"a".to_string()), Some(0));
    assert_eq!(context.find_variable(&"b".to_string()), None);
    assert_eq!(
        context.instructions(),
        &vec![Instruction::Constant { value: 1 }, Instruction::Store { source: 0, slot: 0 }]
    );
}

#[test]
fn redeclaration_stores_to_the_old_slot() {
    let mut context = CodegenContext::new();
    assert_eq!(compile_statement(&declare("x", number(1)), &mut context), Ok(0));
    assert_eq!(compile_statement(&declare("y", number(2)), &mut context), Ok(2));
    assert_eq!(compile_statement(&declare("x", number(3)), &mut context), Ok(4));
    assert_eq!(context.find_variable(&"x".to_string()), Some(0));
    assert_eq!(context.find_variable(&"y".to_string()), Some(1));
    assert_eq!(
        context.instructions(),
        &vec![
            Instruction::Constant { value: 1 },
            Instruction::Store { source: 0, slot: 0 },
            Instruction::Constant { value: 2 },
            Instruction::Store { source: 2, slot: 1 },
            Instruction::Constant { value: 3 },
            Instruction::Store { source: 4, slot: 0 },
        ]
    );
}
