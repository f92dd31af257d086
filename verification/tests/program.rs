use wolf::amarok::span::Spanned;
use wolf::amarok::syntax::{BinaryOperator, Expression, Program, Statement};

#[test]
fn can_construct_program() {
    let program = Program {
        statements: vec![
            Statement::Assignment {
                name: "x".to_string(),
                value: Expression::Binary {
                    left: Box::new(Expression::Integer(2).into()),
                    operator: BinaryOperator::Add,
                    right: Box::new(Expression::Integer(3).into()),
                }
                .into(),
            }
            .into(),
        ],
    };

    assert_eq!(program.statements.len(), 1);
    assert_eq!(program.statements[0], Spanned::with_zero_span(Statement::Assignment {
        name: "x".to_string(),
        value: Spanned::with_zero_span(Expression::Binary {
            left: Box::new(Spanned::with_zero_span(Expression::Integer(2))),
            operator: BinaryOperator::Add,
            right: Box::new(Spanned::with_zero_span(Expression::Integer(3))),
        }),
    }));
}
