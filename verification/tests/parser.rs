use task_automation::lexer::{Token, TokenKind};
use task_automation::parser::expressions::{
    AccessorExpression, BinaryOperationExpression, BinaryOperator, CallExpression, DictionaryExpression, ExpressionType,
    FunctionDeclarationExpression, IdentifierExpression, ListExpression, LiteralType, PropertyExpression,
    UnaryOperationExpression, UnaryOperator,
};
use task_automation::parser::statements::{
    AssignmentStatement, Block, ExpressionStatement, FunctionDeclarationStatement, IfStatement, StatementType,
    VariableDeclarationStatement, While,
};
use task_automation::parser::Parser;

#[test]
fn parses_function_declaration_as_argument() {
    let result = Parser::new(vec![
        Token::new("inlineFunctionCall", TokenKind::Identifier),
        Token::new("(", TokenKind::LeftParenthesis),
        Token::new("fn", TokenKind::Fn),
        Token::new("(", TokenKind::LeftParenthesis),
        Token::new(")", TokenKind::RightParenthesis),
        Token::new("{", TokenKind::LeftCurly),
        Token::new("}", TokenKind::RightCurly),
        Token::new(")", TokenKind::RightParenthesis),
    ])
    .parse().unwrap();

    assert_eq!(
        result,
        vec![StatementType::Expression(ExpressionStatement::Inline(
            ExpressionType::FunctionCall(CallExpression {
                value: Box::new(ExpressionType::Identifier(IdentifierExpression {
                    name: String::from("inlineFunctionCall")
                })),
                parameters: (vec![ExpressionType::FunctionDeclaration(
                    FunctionDeclarationExpression {
                        parameters: vec![],
                        body: Block { statements: vec![] }
                    }
                )])
            })
        ))]
    )
}

#[test]
fn mod_parses_function_call_expression_without_arguments() {
    let result = Parser::new(vec![
        Token::new("var", TokenKind::Var),
        Token::new("x", TokenKind::Identifier),
        Token::new("=", TokenKind::Assign),
        Token::new("greet", TokenKind::Identifier),
        Token::new("(", TokenKind::LeftParenthesis),
        Token::new(")", TokenKind::RightParenthesis),
    ])
    .parse().unwrap();

    assert_eq!(
        result,
        vec![StatementType::VariableDeclaration(
            VariableDeclarationStatement {
                identifier: String::from("x"),
                value: ExpressionType::FunctionCall(CallExpression {
                    value: Box::new(ExpressionType::Identifier(IdentifierExpression {
                        name: String::from("greet")
                    })),
                    parameters: (vec![])
                })
            }
        )]
    )
}

#[test]
fn mod_parses_function_call_expression_with_literal_arguments() {
    let result = Parser::new(vec![
        Token::new("var", TokenKind::Var),
        Token::new("x", TokenKind::Identifier),
        Token::new("=", TokenKind::Assign),
        Token::new("greet", TokenKind::Identifier),
        Token::new("(", TokenKind::LeftParenthesis),
        Token::new("5", TokenKind::Number),
        Token::new(",", TokenKind::Comma),
        Token::new("Hello World", TokenKind::String),
        Token::new(",", TokenKind::Comma),
        Token::new("true", TokenKind::True),
        Token::new(")", TokenKind::RightParenthesis),
    ])
    .parse().unwrap();

    assert_eq!(
        result,
        vec![StatementType::VariableDeclaration(
            VariableDeclarationStatement {
                identifier: String::from("x"),
                value: ExpressionType::FunctionCall(CallExpression {
                    value: Box::new(ExpressionType::Identifier(IdentifierExpression {
                        name: String::from("greet")
                    })),
                    parameters: (vec![
                        ExpressionType::Literal(LiteralType::Number(String::from("5"))),
                        ExpressionType::Literal(LiteralType::String(String::from("Hello World"))),
                        ExpressionType::Literal(LiteralType::Boolean(true))
                    ])
                })
            }
        )]
    )
}

#[test]
fn mod_parses_function_call_expression_with_identifier_argument() {
    let result = Parser::new(vec![
        Token::new("var", TokenKind::Var),
        Token::new("x", TokenKind::Identifier),
        Token::new("=", TokenKind::Assign),
        Token::new("greet", TokenKind::Identifier),
        Token::new("(", TokenKind::LeftParenthesis),
        Token::new("x", TokenKind::Identifier),
        Token::new(")", TokenKind::RightParenthesis),
    ])
    .parse().unwrap();

    assert_eq!(
        result,
        vec![StatementType::VariableDeclaration(
            VariableDeclarationStatement {
                identifier: String::from("x"),
                value: ExpressionType::FunctionCall(CallExpression {
                    value: Box::new(ExpressionType::Identifier(IdentifierExpression {
                        name: String::from("greet")
                    })),
                    parameters: (vec![ExpressionType::Identifier(
                        IdentifierExpression {
                            name: String::from("x")
                        }
                    )])
                })
            }
        )]
    )
}

#[test]
fn mod_parses_function_call_statement_without_arguments() {
    let result = Parser::new(vec![
        Token::new("greet", TokenKind::Identifier),
        Token::new("(", TokenKind::LeftParenthesis),
        Token::new(")", TokenKind::RightParenthesis),
    ])
    .parse().unwrap();

    assert_eq!(
        result,
        vec![StatementType::Expression(ExpressionStatement::Inline(
            ExpressionType::FunctionCall(CallExpression {
                value: Box::new(ExpressionType::Identifier(IdentifierExpression {
                    name: String::from("greet")
                })),
                parameters: (vec![])
            })
        ))]
    )
}

#[test]
fn mod_parses_function_call_statement_with_literal_arguments() {
    let result = Parser::new(vec![
        Token::new("greet", TokenKind::Identifier),
        Token::new("(", TokenKind::LeftParenthesis),
        Token::new("5", TokenKind::Number),
        Token::new(",", TokenKind::Comma),
        Token::new("Hello World", TokenKind::String),
        Token::new(",", TokenKind::Comma),
        Token::new("true", TokenKind::True),
        Token::new(")", TokenKind::RightParenthesis),
    ])
    .parse().unwrap();

    assert_eq!(
        result,
        vec![StatementType::Expression(ExpressionStatement::Inline(
            ExpressionType::FunctionCall(CallExpression {
                value: Box::new(ExpressionType::Identifier(IdentifierExpression {
                    name: String::from("greet")
                })),
                parameters: (vec![
                    ExpressionType::Literal(LiteralType::Number(String::from("5"))),
                    ExpressionType::Literal(LiteralType::String(String::from("Hello World"))),
                    ExpressionType::Literal(LiteralType::Boolean(true))
                ])
            })
        ))]
    )
}

#[test]
fn mod_parses_function_call_statement_with_identifier_argument() {
    let result = Parser::new(vec![
        Token::new("greet", TokenKind::Identifier),
        Token::new("(", TokenKind::LeftParenthesis),
        Token::new("x", TokenKind::Identifier),
        Token::new(")", TokenKind::RightParenthesis),
    ])
    .parse().unwrap();

    assert_eq!(
        result,
        vec![StatementType::Expression(ExpressionStatement::Inline(
            ExpressionType::FunctionCall(CallExpression {
                value: Box::new(ExpressionType::Identifier(IdentifierExpression {
                    name: String::from("greet")
                })),
                parameters: (vec![ExpressionType::Identifier(
                    IdentifierExpression {
                        name: String::from("x")
                    }
                )])
            })
        ))]
    )
}

#[test]
fn mod_parses_function_declaration_without_arguments() {
    let result = Parser::new(vec![
        Token::new("fn", TokenKind::Fn),
        Token::new("greet", TokenKind::Identifier),
        Token::new("(", TokenKind::LeftParenthesis),
        Token::new(")", TokenKind::RightParenthesis),
        Token::new("{", TokenKind::LeftCurly),
        Token::new("}", TokenKind::RightCurly),
    ])
    .parse().unwrap();

    assert_eq!(
        result,
        vec![StatementType::FunctionDeclaration(
            FunctionDeclarationStatement {
                identifier: String::from("greet"),
                arguments: vec![],
                body: Block { statements: vec![] }
            }
        )]
    )
}

#[test]
fn mod_parses_function_declaration_with_return() {
    let result = Parser::new(vec![
        Token::new("fn", TokenKind::Fn),
        Token::new("greet", TokenKind::Identifier),
        Token::new("(", TokenKind::LeftParenthesis),
        Token::new(")", TokenKind::RightParenthesis),
        Token::new("{", TokenKind::LeftCurly),
        Token::new("return", TokenKind::Return),
        Token::new("5", TokenKind::Number),
        Token::new("}", TokenKind::RightCurly),
    ])
    .parse().unwrap();

    assert_eq!(
        result,
        vec![StatementType::FunctionDeclaration(
            FunctionDeclarationStatement {
                identifier: String::from("greet"),
                arguments: vec![],
                body: Block {
                    statements: vec![StatementType::Return(ExpressionType::Literal(
                        LiteralType::Number(String::from("5"))
                    ))]
                }
            }
        )]
    )
}

#[test]
fn mod_parses_function_declaration_with_single_argument() {
    let result = Parser::new(vec![
        Token::new("fn", TokenKind::Fn),
        Token::new("greet", TokenKind::Identifier),
        Token::new("(", TokenKind::LeftParenthesis),
        Token::new("arg1", TokenKind::Identifier),
        Token::new(")", TokenKind::RightParenthesis),
        Token::new("{", TokenKind::LeftCurly),
        Token::new("}", TokenKind::RightCurly),
    ])
    .parse().unwrap();

    assert_eq!(
        result,
        vec![StatementType::FunctionDeclaration(
            FunctionDeclarationStatement {
                identifier: String::from("greet"),
                arguments: vec![IdentifierExpression {
                    name: String::from("arg1")
                }],
                body: Block { statements: vec![] }
            }
        )]
    )
}

#[test]
fn mod_parses_function_declaration_with_multiple_arguments() {
    let result = Parser::new(vec![
        Token::new("fn", TokenKind::Fn),
        Token::new("greet", TokenKind::Identifier),
        Token::new("(", TokenKind::LeftParenthesis),
        Token::new("arg1", TokenKind::Identifier),
        Token::new(",", TokenKind::Comma),
        Token::new("arg2", TokenKind::Identifier),
        Token::new(")", TokenKind::RightParenthesis),
        Token::new("{", TokenKind::LeftCurly),
        Token::new("}", TokenKind::RightCurly),
    ])
    .parse().unwrap();

    assert_eq!(
        result,
        vec![StatementType::FunctionDeclaration(
            FunctionDeclarationStatement {
                identifier: String::from("greet"),
                arguments: vec![
                    IdentifierExpression {
                        name: String::from("arg1")
                    },
                    IdentifierExpression {
                        name: String::from("arg2")
                    }
                ],
                body: Block { statements: vec![] }
            }
        )]
    )
}

#[test]
fn parses_variable_declaration_number() {
    let result = Parser::new(vec![
        Token::new("var", TokenKind::Var),
        Token::new("x", TokenKind::Identifier),
        Token::new("=", TokenKind::Assign),
        Token::new("5", TokenKind::Number),
        Token::new("var", TokenKind::Var),
        Token::new("y", TokenKind::Identifier),
        Token::new("=", TokenKind::Assign),
        Token::new("-", TokenKind::Minus),
        Token::new("5", TokenKind::Number),
    ])
    .parse().unwrap();

    assert_eq!(
        result,
        vec![
            StatementType::VariableDeclaration(VariableDeclarationStatement {
                identifier: String::from("x"),
                value: ExpressionType::Literal(LiteralType::Number(String::from("5")))
            }),
            StatementType::VariableDeclaration(VariableDeclarationStatement {
                identifier: String::from("y"),
                value: ExpressionType::UnaryOperation(UnaryOperationExpression {
                    expression: Box::new(ExpressionType::Literal(LiteralType::Number(String::from("5")))),
                    operator: UnaryOperator::Minus
                })
            })
        ]
    )
}

#[test]
fn parses_variable_declaration_string() {
    let result = Parser::new(vec![
        Token::new("var", TokenKind::Var),
        Token::new("x", TokenKind::Identifier),
        Token::new("=", TokenKind::Assign),
        Token::new("Hello World", TokenKind::String),
    ])
    .parse().unwrap();

    assert_eq!(
        result,
        vec![StatementType::VariableDeclaration(
            VariableDeclarationStatement {
                identifier: String::from("x"),
                value: ExpressionType::Literal(LiteralType::String(String::from("Hello World")))
            }
        )]
    )
}

#[test]
fn parses_variable_declaration_identifier() {
    let result = Parser::new(vec![
        Token::new("var", TokenKind::Var),
        Token::new("x", TokenKind::Identifier),
        Token::new("=", TokenKind::Assign),
        Token::new("identifier", TokenKind::Identifier),
    ])
    .parse().unwrap();

    assert_eq!(
        result,
        vec![StatementType::VariableDeclaration(
            VariableDeclarationStatement {
                identifier: String::from("x"),
                value: ExpressionType::Identifier(IdentifierExpression {
                    name: String::from("identifier")
                })
            }
        )]
    )
}

#[test]
fn parses_variable_declaration_boolean() {
    let result = Parser::new(vec![
        Token::new("var", TokenKind::Var),
        Token::new("x", TokenKind::Identifier),
        Token::new("=", TokenKind::Assign),
        Token::new("true", TokenKind::True),
        Token::new("var", TokenKind::Var),
        Token::new("y", TokenKind::Identifier),
        Token::new("=", TokenKind::Assign),
        Token::new("false", TokenKind::False),
    ])
    .parse().unwrap();

    assert_eq!(
        result,
        vec![
            StatementType::VariableDeclaration(VariableDeclarationStatement {
                identifier: String::from("x"),
                value: ExpressionType::Literal(LiteralType::Boolean(true))
            }),
            StatementType::VariableDeclaration(VariableDeclarationStatement {
                identifier: String::from("y"),
                value: ExpressionType::Literal(LiteralType::Boolean(false))
            }),
        ]
    )
}

#[test]
fn parses_variable_assignment_number() {
    let result = Parser::new(vec![
        Token::new("var", TokenKind::Var),
        Token::new("x", TokenKind::Identifier),
        Token::new("=", TokenKind::Assign),
        Token::new("5", TokenKind::Number),
        Token::new("x", TokenKind::Identifier),
        Token::new("=", TokenKind::Assign),
        Token::new("-", TokenKind::Minus),
        Token::new("5", TokenKind::Number),
    ])
    .parse().unwrap();

    assert_eq!(
        result,
        vec![
            StatementType::VariableDeclaration(VariableDeclarationStatement {
                identifier: String::from("x"),
                value: ExpressionType::Literal(LiteralType::Number(String::from("5")))
            }),
            StatementType::Expression(ExpressionStatement::Assignment(AssignmentStatement {
                identifier: ExpressionType::Identifier(IdentifierExpression {
                    name: String::from("x")
                }),
                value: ExpressionType::UnaryOperation(UnaryOperationExpression {
                    expression: Box::new(ExpressionType::Literal(LiteralType::Number(String::from("5")))),
                    operator: UnaryOperator::Minus
                })
            }))
        ]
    )
}

#[test]
fn parses_variable_assignment_string() {
    let result = Parser::new(vec![
        Token::new("var", TokenKind::Var),
        Token::new("x", TokenKind::Identifier),
        Token::new("=", TokenKind::Assign),
        Token::new("Hello World", TokenKind::String),
        Token::new("x", TokenKind::Identifier),
        Token::new("=", TokenKind::Assign),
        Token::new("Update", TokenKind::String),
    ])
    .parse().unwrap();

    assert_eq!(
        result,
        vec![
            StatementType::VariableDeclaration(VariableDeclarationStatement {
                identifier: String::from("x"),
                value: ExpressionType::Literal(LiteralType::String(String::from("Hello World")))
            }),
            StatementType::Expression(ExpressionStatement::Assignment(AssignmentStatement {
                identifier: ExpressionType::Identifier(IdentifierExpression {
                    name: String::from("x")
                }),
                value: ExpressionType::Literal(LiteralType::String(String::from("Update")))
            }))
        ]
    )
}

#[test]
fn parses_variable_assignment_identifier() {
    let result = Parser::new(vec![
        Token::new("var", TokenKind::Var),
        Token::new("x", TokenKind::Identifier),
        Token::new("=", TokenKind::Assign),
        Token::new("identifier", TokenKind::Identifier),
        Token::new("x", TokenKind::Identifier),
        Token::new("=", TokenKind::Assign),
        Token::new("identifier2", TokenKind::Identifier),
    ])
    .parse().unwrap();

    assert_eq!(
        result,
        vec![
            StatementType::VariableDeclaration(VariableDeclarationStatement {
                identifier: String::from("x"),
                value: ExpressionType::Identifier(IdentifierExpression {
                    name: String::from("identifier")
                })
            }),
            StatementType::Expression(ExpressionStatement::Assignment(AssignmentStatement {
                identifier: ExpressionType::Identifier(IdentifierExpression {
                    name: String::from("x")
                }),
                value: ExpressionType::Identifier(IdentifierExpression {
                    name: String::from("identifier2")
                })
            }))
        ]
    )
}

#[test]
fn parses_variable_assignment_boolean() {
    let result = Parser::new(vec![
        Token::new("var", TokenKind::Var),
        Token::new("x", TokenKind::Identifier),
        Token::new("=", TokenKind::Assign),
        Token::new("true", TokenKind::True),
        Token::new("x", TokenKind::Identifier),
        Token::new("=", TokenKind::Assign),
        Token::new("false", TokenKind::False),
    ])
    .parse().unwrap();

    assert_eq!(
        result,
        vec![
            StatementType::VariableDeclaration(VariableDeclarationStatement {
                identifier: String::from("x"),
                value: ExpressionType::Literal(LiteralType::Boolean(true))
            }),
            StatementType::Expression(ExpressionStatement::Assignment(AssignmentStatement {
                identifier: ExpressionType::Identifier(IdentifierExpression {
                    name: String::from("x")
                }),
                value: ExpressionType::Literal(LiteralType::Boolean(false))
            })),
        ]
    )
}

#[test]
fn parses_truly_evil_3() {
    // var x = ((1 + 2) * 3 > (4 + 5)) && ((6 < 7) || (8 > 9))
    let result = Parser::new(vec![
        Token::new("var", TokenKind::Var),
        Token::new("x", TokenKind::Identifier),
        Token::new("=", TokenKind::Assign),
        Token::new("(", TokenKind::LeftParenthesis),
        Token::new("(", TokenKind::LeftParenthesis),
        Token::new("1", TokenKind::Number),
        Token::new("+", TokenKind::Plus),
        Token::new("2", TokenKind::Number),
        Token::new(")", TokenKind::RightParenthesis),
        Token::new("*", TokenKind::Times),
        Token::new("3", TokenKind::Number),
        Token::new(">", TokenKind::GreaterThan),
        Token::new("(", TokenKind::LeftParenthesis),
        Token::new("4", TokenKind::Number),
        Token::new("+", TokenKind::Plus),
        Token::new("5", TokenKind::Number),
        Token::new(")", TokenKind::RightParenthesis),
        Token::new(")", TokenKind::RightParenthesis),
        Token::new("&&", TokenKind::And),
        Token::new("(", TokenKind::LeftParenthesis),
        Token::new("(", TokenKind::LeftParenthesis),
        Token::new("6", TokenKind::Number),
        Token::new("<", TokenKind::LessThan),
        Token::new("7", TokenKind::Number),
        Token::new(")", TokenKind::RightParenthesis),
        Token::new("||", TokenKind::Or),
        Token::new("(", TokenKind::LeftParenthesis),
        Token::new("8", TokenKind::Number),
        Token::new(">", TokenKind::GreaterThan),
        Token::new("9", TokenKind::Number),
        Token::new(")", TokenKind::RightParenthesis),
        Token::new(")", TokenKind::RightParenthesis),
    ])
    .parse().unwrap();

    assert_eq!(
        result,
        vec![StatementType::VariableDeclaration(
            VariableDeclarationStatement {
                identifier: String::from("x"),
                value: ExpressionType::BinaryOperation(BinaryOperationExpression::new(
                    ExpressionType::BinaryOperation(BinaryOperationExpression::new(
                        ExpressionType::BinaryOperation(BinaryOperationExpression::new(
                            ExpressionType::BinaryOperation(BinaryOperationExpression::new(
                                ExpressionType::Literal(LiteralType::Number(String::from("1"))),
                                BinaryOperator::Add,
                                ExpressionType::Literal(LiteralType::Number(String::from("2"))),
                            )),
                            BinaryOperator::Multiply,
                            ExpressionType::Literal(LiteralType::Number(String::from("3"))),
                        )),
                        BinaryOperator::GreaterThan,
                        ExpressionType::BinaryOperation(BinaryOperationExpression::new(
                            ExpressionType::Literal(LiteralType::Number(String::from("4"))),
                            BinaryOperator::Add,
                            ExpressionType::Literal(LiteralType::Number(String::from("5"))),
                        )),
                    )),
                    BinaryOperator::And,
                    ExpressionType::BinaryOperation(BinaryOperationExpression::new(
                        ExpressionType::BinaryOperation(BinaryOperationExpression::new(
                            ExpressionType::Literal(LiteralType::Number(String::from("6"))),
                            BinaryOperator::LessThan,
                            ExpressionType::Literal(LiteralType::Number(String::from("7"))),
                        )),
                        BinaryOperator::Or,
                        ExpressionType::BinaryOperation(BinaryOperationExpression::new(
                            ExpressionType::Literal(LiteralType::Number(String::from("8"))),
                            BinaryOperator::GreaterThan,
                            ExpressionType::Literal(LiteralType::Number(String::from("9"))),
                        )),
                    )),
                )),
            }
        ),]
    )
}

#[test]
fn parses_truly_evil_2() {
    // var x = (1 + 2 * 3 > 5 && 4 < 10) || (6 == 6 && 7 > 8)
    let result = Parser::new(vec![
        Token::new("var", TokenKind::Var),
        Token::new("x", TokenKind::Identifier),
        Token::new("=", TokenKind::Assign),
        Token::new("(", TokenKind::LeftParenthesis),
        Token::new("1", TokenKind::Number),
        Token::new("+", TokenKind::Plus),
        Token::new("2", TokenKind::Number),
        Token::new("*", TokenKind::Times),
        Token::new("3", TokenKind::Number),
        Token::new(">", TokenKind::GreaterThan),
        Token::new("5", TokenKind::Number),
        Token::new("&&", TokenKind::And),
        Token::new("4", TokenKind::Number),
        Token::new("<", TokenKind::LessThan),
        Token::new("10", TokenKind::Number),
        Token::new(")", TokenKind::RightParenthesis),
        Token::new("||", TokenKind::Or),
        Token::new("(", TokenKind::LeftParenthesis),
        Token::new("6", TokenKind::Number),
        Token::new("==", TokenKind::Equal),
        Token::new("6", TokenKind::Number),
        Token::new("&&", TokenKind::And),
        Token::new("7", TokenKind::Number),
        Token::new(">", TokenKind::GreaterThan),
        Token::new("8", TokenKind::Number),
        Token::new(")", TokenKind::RightParenthesis),
    ])
    .parse().unwrap();

    assert_eq!(
        result,
        vec![StatementType::VariableDeclaration(
            VariableDeclarationStatement {
                identifier: String::from("x"),
                value: ExpressionType::BinaryOperation(BinaryOperationExpression::new(
                    ExpressionType::BinaryOperation(BinaryOperationExpression::new(
                        ExpressionType::BinaryOperation(BinaryOperationExpression::new(
                            ExpressionType::BinaryOperation(BinaryOperationExpression::new(
                                ExpressionType::Literal(LiteralType::Number(String::from("1"))),
                                BinaryOperator::Add,
                                ExpressionType::BinaryOperation(BinaryOperationExpression::new(
                                    ExpressionType::Literal(LiteralType::Number(String::from("2"))),
                                    BinaryOperator::Multiply,
                                    ExpressionType::Literal(LiteralType::Number(String::from("3"))),
                                )),
                            )),
                            BinaryOperator::GreaterThan,
                            ExpressionType::Literal(LiteralType::Number(String::from("5"))),
                        )),
                        BinaryOperator::And,
                        ExpressionType::BinaryOperation(BinaryOperationExpression::new(
                            ExpressionType::Literal(LiteralType::Number(String::from("4"))),
                            BinaryOperator::LessThan,
                            ExpressionType::Literal(LiteralType::Number(String::from("10"))),
                        )),
                    )),
                    BinaryOperator::Or,
                    ExpressionType::BinaryOperation(BinaryOperationExpression::new(
                        ExpressionType::BinaryOperation(BinaryOperationExpression::new(
                            ExpressionType::Literal(LiteralType::Number(String::from("6"))),
                            BinaryOperator::Equal,
                            ExpressionType::Literal(LiteralType::Number(String::from("6"))),
                        )),
                        BinaryOperator::And,
                        ExpressionType::BinaryOperation(BinaryOperationExpression::new(
                            ExpressionType::Literal(LiteralType::Number(String::from("7"))),
                            BinaryOperator::GreaterThan,
                            ExpressionType::Literal(LiteralType::Number(String::from("8"))),
                        )),
                    )),
                )),
            }
        ),]
    )
}

#[test]
fn parses_truly_evil_1() {
    // var x = -((1 + 2) * (3 - 4) > 5) && !(6 < 7)
    let result = Parser::new(vec![
        Token::new("var", TokenKind::Var),
        Token::new("x", TokenKind::Identifier),
        Token::new("=", TokenKind::Assign),
        Token::new("-", TokenKind::Minus),
        Token::new("(", TokenKind::LeftParenthesis),
        Token::new("(", TokenKind::LeftParenthesis),
        Token::new("1", TokenKind::Number),
        Token::new("+", TokenKind::Plus),
        Token::new("2", TokenKind::Number),
        Token::new(")", TokenKind::RightParenthesis),
        Token::new("*", TokenKind::Times),
        Token::new("(", TokenKind::LeftParenthesis),
        Token::new("3", TokenKind::Number),
        Token::new("-", TokenKind::Minus),
        Token::new("4", TokenKind::Number),
        Token::new(")", TokenKind::RightParenthesis),
        Token::new(">", TokenKind::GreaterThan),
        Token::new("5", TokenKind::Number),
        Token::new(")", TokenKind::RightParenthesis),
        Token::new("&&", TokenKind::And),
        Token::new("!", TokenKind::Bang),
        Token::new("(", TokenKind::LeftParenthesis),
        Token::new("6", TokenKind::Number),
        Token::new("<", TokenKind::LessThan),
        Token::new("7", TokenKind::Number),
        Token::new(")", TokenKind::RightParenthesis),
    ])
    .parse().unwrap();

    assert_eq!(
        result,
        vec![StatementType::VariableDeclaration(
            VariableDeclarationStatement {
                identifier: String::from("x"),
                value: ExpressionType::BinaryOperation(BinaryOperationExpression::new(
                    ExpressionType::UnaryOperation(UnaryOperationExpression::new(
                        UnaryOperator::Minus,
                        ExpressionType::BinaryOperation(BinaryOperationExpression::new(
                            ExpressionType::BinaryOperation(BinaryOperationExpression::new(
                                ExpressionType::BinaryOperation(BinaryOperationExpression::new(
                                    ExpressionType::Literal(LiteralType::Number(String::from("1"))),
                                    BinaryOperator::Add,
                                    ExpressionType::Literal(LiteralType::Number(String::from("2"))),
                                )),
                                BinaryOperator::Multiply,
                                ExpressionType::BinaryOperation(BinaryOperationExpression::new(
                                    ExpressionType::Literal(LiteralType::Number(String::from("3"))),
                                    BinaryOperator::Subtract,
                                    ExpressionType::Literal(LiteralType::Number(String::from("4"))),
                                )),
                            )),
                            BinaryOperator::GreaterThan,
                            ExpressionType::Literal(LiteralType::Number(String::from("5"))),
                        )),
                    )),
                    BinaryOperator::And,
                    ExpressionType::UnaryOperation(UnaryOperationExpression::new(
                        UnaryOperator::Bang,
                        ExpressionType::BinaryOperation(BinaryOperationExpression::new(
                            ExpressionType::Literal(LiteralType::Number(String::from("6"))),
                            BinaryOperator::LessThan,
                            ExpressionType::Literal(LiteralType::Number(String::from("7"))),
                        )),
                    )),
                )),
            }
        ),]
    )
}

#[test]
fn parses_deep_nesting_3() {
    // var x = (1 + 2 * 3 > 5 && 4 < 10) || (6 == 6)
    let result = Parser::new(vec![
        Token::new("var", TokenKind::Var),
        Token::new("x", TokenKind::Identifier),
        Token::new("=", TokenKind::Assign),
        Token::new("(", TokenKind::LeftParenthesis),
        Token::new("1", TokenKind::Number),
        Token::new("+", TokenKind::Plus),
        Token::new("2", TokenKind::Number),
        Token::new("*", TokenKind::Times),
        Token::new("3", TokenKind::Number),
        Token::new(">", TokenKind::GreaterThan),
        Token::new("5", TokenKind::Number),
        Token::new("&&", TokenKind::And),
        Token::new("4", TokenKind::Number),
        Token::new("<", TokenKind::LessThan),
        Token::new("10", TokenKind::Number),
        Token::new(")", TokenKind::RightParenthesis),
        Token::new("||", TokenKind::Or),
        Token::new("(", TokenKind::LeftParenthesis),
        Token::new("6", TokenKind::Number),
        Token::new("==", TokenKind::Equal),
        Token::new("6", TokenKind::Number),
        Token::new(")", TokenKind::RightParenthesis),
    ])
    .parse().unwrap();

    assert_eq!(
        result,
        vec![StatementType::VariableDeclaration(
            VariableDeclarationStatement {
                identifier: String::from("x"),
                value: ExpressionType::BinaryOperation(BinaryOperationExpression::new(
                    ExpressionType::BinaryOperation(BinaryOperationExpression::new(
                        ExpressionType::BinaryOperation(BinaryOperationExpression::new(
                            ExpressionType::BinaryOperation(BinaryOperationExpression::new(
                                ExpressionType::Literal(LiteralType::Number(String::from("1"))),
                                BinaryOperator::Add,
                                ExpressionType::BinaryOperation(BinaryOperationExpression::new(
                                    ExpressionType::Literal(LiteralType::Number(String::from("2"))),
                                    BinaryOperator::Multiply,
                                    ExpressionType::Literal(LiteralType::Number(String::from("3"))),
                                )),
                            )),
                            BinaryOperator::GreaterThan,
                            ExpressionType::Literal(LiteralType::Number(String::from("5"))),
                        )),
                        BinaryOperator::And,
                        ExpressionType::BinaryOperation(BinaryOperationExpression::new(
                            ExpressionType::Literal(LiteralType::Number(String::from("4"))),
                            BinaryOperator::LessThan,
                            ExpressionType::Literal(LiteralType::Number(String::from("10"))),
                        )),
                    )),
                    BinaryOperator::Or,
                    ExpressionType::BinaryOperation(BinaryOperationExpression::new(
                        ExpressionType::Literal(LiteralType::Number(String::from("6"))),
                        BinaryOperator::Equal,
                        ExpressionType::Literal(LiteralType::Number(String::from("6"))),
                    )),
                )),
            }
        ),]
    )
}

#[test]
fn parses_deep_nesting_2() {
    // var x = ((1 + 2) * (3 + 4)) * (5 + 6)
    let result = Parser::new(vec![
        Token::new("var", TokenKind::Var),
        Token::new("x", TokenKind::Identifier),
        Token::new("=", TokenKind::Assign),
        Token::new("(", TokenKind::LeftParenthesis),
        Token::new("(", TokenKind::LeftParenthesis),
        Token::new("1", TokenKind::Number),
        Token::new("+", TokenKind::Plus),
        Token::new("2", TokenKind::Number),
        Token::new(")", TokenKind::RightParenthesis),
        Token::new("*", TokenKind::Times),
        Token::new("(", TokenKind::LeftParenthesis),
        Token::new("3", TokenKind::Number),
        Token::new("+", TokenKind::Plus),
        Token::new("4", TokenKind::Number),
        Token::new(")", TokenKind::RightParenthesis),
        Token::new(")", TokenKind::RightParenthesis),
        Token::new("*", TokenKind::Times),
        Token::new("(", TokenKind::LeftParenthesis),
        Token::new("5", TokenKind::Number),
        Token::new("+", TokenKind::Plus),
        Token::new("6", TokenKind::Number),
        Token::new(")", TokenKind::RightParenthesis),
    ])
    .parse().unwrap();

    assert_eq!(
        result,
        vec![StatementType::VariableDeclaration(
            VariableDeclarationStatement {
                identifier: String::from("x"),
                value: ExpressionType::BinaryOperation(BinaryOperationExpression::new(
                    ExpressionType::BinaryOperation(BinaryOperationExpression::new(
                        ExpressionType::BinaryOperation(BinaryOperationExpression::new(
                            ExpressionType::Literal(LiteralType::Number(String::from("1"))),
                            BinaryOperator::Add,
                            ExpressionType::Literal(LiteralType::Number(String::from("2"))),
                        )),
                        BinaryOperator::Multiply,
                        ExpressionType::BinaryOperation(BinaryOperationExpression::new(
                            ExpressionType::Literal(LiteralType::Number(String::from("3"))),
                            BinaryOperator::Add,
                            ExpressionType::Literal(LiteralType::Number(String::from("4"))),
                        )),
                    )),
                    BinaryOperator::Multiply,
                    ExpressionType::BinaryOperation(BinaryOperationExpression::new(
                        ExpressionType::Literal(LiteralType::Number(String::from("5"))),
                        BinaryOperator::Add,
                        ExpressionType::Literal(LiteralType::Number(String::from("6"))),
                    )),
                )),
            }
        ),]
    )
}

#[test]
fn parses_deep_nesting_1() {
    // var x = (1 + (2 * (3 + (4 * 5))))
    let result = Parser::new(vec![
        Token::new("var", TokenKind::Var),
        Token::new("x", TokenKind::Identifier),
        Token::new("=", TokenKind::Assign),
        Token::new("(", TokenKind::LeftParenthesis),
        Token::new("1", TokenKind::Number),
        Token::new("+", TokenKind::Plus),
        Token::new("(", TokenKind::LeftParenthesis),
        Token::new("2", TokenKind::Number),
        Token::new("*", TokenKind::Times),
        Token::new("(", TokenKind::LeftParenthesis),
        Token::new("3", TokenKind::Number),
        Token::new("+", TokenKind::Plus),
        Token::new("(", TokenKind::LeftParenthesis),
        Token::new("4", TokenKind::Number),
        Token::new("*", TokenKind::Times),
        Token::new("5", TokenKind::Number),
        Token::new(")", TokenKind::RightParenthesis),
        Token::new(")", TokenKind::RightParenthesis),
        Token::new(")", TokenKind::RightParenthesis),
        Token::new(")", TokenKind::RightParenthesis),
    ])
    .parse().unwrap();

    assert_eq!(
        result,
        vec![StatementType::VariableDeclaration(
            VariableDeclarationStatement {
                identifier: String::from("x"),
                value: ExpressionType::BinaryOperation(BinaryOperationExpression::new(
                    ExpressionType::Literal(LiteralType::Number(String::from("1"))),
                    BinaryOperator::Add,
                    ExpressionType::BinaryOperation(BinaryOperationExpression::new(
                        ExpressionType::Literal(LiteralType::Number(String::from("2"))),
                        BinaryOperator::Multiply,
                        ExpressionType::BinaryOperation(BinaryOperationExpression::new(
                            ExpressionType::Literal(LiteralType::Number(String::from("3"))),
                            BinaryOperator::Add,
                            ExpressionType::BinaryOperation(BinaryOperationExpression::new(
                                ExpressionType::Literal(LiteralType::Number(String::from("4"))),
                                BinaryOperator::Multiply,
                                ExpressionType::Literal(LiteralType::Number(String::from("5"))),
                            )),
                        )),
                    )),
                )),
            }
        ),]
    )
}

#[test]
fn parses_associativity_traps_6() {
    // var x = a || b && c || d && e
    let result = Parser::new(vec![
        Token::new("var", TokenKind::Var),
        Token::new("x", TokenKind::Identifier),
        Token::new("=", TokenKind::Assign),
        Token::new("a", TokenKind::Identifier),
        Token::new("||", TokenKind::Or),
        Token::new("b", TokenKind::Identifier),
        Token::new("&&", TokenKind::And),
        Token::new("c", TokenKind::Identifier),
        Token::new("||", TokenKind::Or),
        Token::new("d", TokenKind::Identifier),
        Token::new("&&", TokenKind::And),
        Token::new("e", TokenKind::Identifier),
    ])
    .parse().unwrap();

    assert_eq!(
        result,
        vec![StatementType::VariableDeclaration(
            VariableDeclarationStatement {
                identifier: String::from("x"),
                value: ExpressionType::BinaryOperation(BinaryOperationExpression::new(
                    ExpressionType::BinaryOperation(BinaryOperationExpression::new(
                        ExpressionType::Identifier(IdentifierExpression {
                            name: String::from("a")
                        }),
                        BinaryOperator::Or,
                        ExpressionType::BinaryOperation(BinaryOperationExpression::new(
                            ExpressionType::Identifier(IdentifierExpression {
                                name: String::from("b")
                            }),
                            BinaryOperator::And,
                            ExpressionType::Identifier(IdentifierExpression {
                                name: String::from("c")
                            }),
                        )),
                    )),
                    BinaryOperator::Or,
                    ExpressionType::BinaryOperation(BinaryOperationExpression::new(
                        ExpressionType::Identifier(IdentifierExpression {
                            name: String::from("d")
                        }),
                        BinaryOperator::And,
                        ExpressionType::Identifier(IdentifierExpression {
                            name: String::from("e")
                        }),
                    )),
                )),
            }
        ),]
    )
}

#[test]
fn parses_associativity_traps_5() {
    // var x = 1 + 2 * 3 + 4 * 5
    let result = Parser::new(vec![
        Token::new("var", TokenKind::Var),
        Token::new("x", TokenKind::Identifier),
        Token::new("=", TokenKind::Assign),
        Token::new("1", TokenKind::Number),
        Token::new("+", TokenKind::Plus),
        Token::new("2", TokenKind::Number),
        Token::new("*", TokenKind::Times),
        Token::new("3", TokenKind::Number),
        Token::new("+", TokenKind::Plus),
        Token::new("4", TokenKind::Number),
        Token::new("*", TokenKind::Times),
        Token::new("5", TokenKind::Number),
    ])
    .parse().unwrap();

    assert_eq!(
        result,
        vec![StatementType::VariableDeclaration(
            VariableDeclarationStatement {
                identifier: String::from("x"),
                value: ExpressionType::BinaryOperation(BinaryOperationExpression::new(
                    ExpressionType::BinaryOperation(BinaryOperationExpression::new(
                        ExpressionType::Literal(LiteralType::Number(String::from("1"))),
                        BinaryOperator::Add,
                        ExpressionType::BinaryOperation(BinaryOperationExpression::new(
                            ExpressionType::Literal(LiteralType::Number(String::from("2"))),
                            BinaryOperator::Multiply,
                            ExpressionType::Literal(LiteralType::Number(String::from("3"))),
                        )),
                    )),
                    BinaryOperator::Add,
                    ExpressionType::BinaryOperation(BinaryOperationExpression::new(
                        ExpressionType::Literal(LiteralType::Number(String::from("4"))),
                        BinaryOperator::Multiply,
                        ExpressionType::Literal(LiteralType::Number(String::from("5"))),
                    )),
                )),
            }
        ),]
    )
}

#[test]
fn parses_associativity_traps_4() {
    // var x = true || false || true
    let result = Parser::new(vec![
        Token::new("var", TokenKind::Var),
        Token::new("x", TokenKind::Identifier),
        Token::new("=", TokenKind::Assign),
        Token::new("true", TokenKind::True),
        Token::new("||", TokenKind::Or),
        Token::new("false", TokenKind::False),
        Token::new("||", TokenKind::Or),
        Token::new("true", TokenKind::True),
    ])
    .parse().unwrap();

    assert_eq!(
        result,
        vec![StatementType::VariableDeclaration(
            VariableDeclarationStatement {
                identifier: String::from("x"),
                value: ExpressionType::BinaryOperation(BinaryOperationExpression::new(
                    ExpressionType::BinaryOperation(BinaryOperationExpression::new(
                        ExpressionType::Literal(LiteralType::Boolean(true)),
                        BinaryOperator::Or,
                        ExpressionType::Literal(LiteralType::Boolean(false)),
                    )),
                    BinaryOperator::Or,
                    ExpressionType::Literal(LiteralType::Boolean(true)),
                )),
            }
        ),]
    )
}

#[test]
fn parses_associativity_traps_3() {
    // var x = true && false && true
    let result = Parser::new(vec![
        Token::new("var", TokenKind::Var),
        Token::new("x", TokenKind::Identifier),
        Token::new("=", TokenKind::Assign),
        Token::new("true", TokenKind::True),
        Token::new("&&", TokenKind::And),
        Token::new("false", TokenKind::False),
        Token::new("&&", TokenKind::And),
        Token::new("true", TokenKind::True),
    ])
    .parse().unwrap();

    assert_eq!(
        result,
        vec![StatementType::VariableDeclaration(
            VariableDeclarationStatement {
                identifier: String::from("x"),
                value: ExpressionType::BinaryOperation(BinaryOperationExpression::new(
                    ExpressionType::BinaryOperation(BinaryOperationExpression::new(
                        ExpressionType::Literal(LiteralType::Boolean(true)),
                        BinaryOperator::And,
                        ExpressionType::Literal(LiteralType::Boolean(false)),
                    )),
                    BinaryOperator::And,
                    ExpressionType::Literal(LiteralType::Boolean(true)),
                )),
            }
        ),]
    )
}

#[test]
fn parses_associativity_traps_2() {
    // var x = 1 < 2 < 3
    let result = Parser::new(vec![
        Token::new("var", TokenKind::Var),
        Token::new("x", TokenKind::Identifier),
        Token::new("=", TokenKind::Assign),
        Token::new("1", TokenKind::Number),
        Token::new("<", TokenKind::LessThan),
        Token::new("2", TokenKind::Number),
        Token::new("<", TokenKind::LessThan),
        Token::new("3", TokenKind::Number),
    ])
    .parse().unwrap();

    assert_eq!(
        result,
        vec![StatementType::VariableDeclaration(
            VariableDeclarationStatement {
                identifier: String::from("x"),
                value: ExpressionType::BinaryOperation(BinaryOperationExpression::new(
                    ExpressionType::BinaryOperation(BinaryOperationExpression::new(
                        ExpressionType::Literal(LiteralType::Number(String::from("1"))),
                        BinaryOperator::LessThan,
                        ExpressionType::Literal(LiteralType::Number(String::from("2"))),
                    )),
                    BinaryOperator::LessThan,
                    ExpressionType::Literal(LiteralType::Number(String::from("3"))),
                )),
            }
        ),]
    )
}

#[test]
fn parses_associativity_traps_1() {
    // var x = 1 - 2 - 3
    let result = Parser::new(vec![
        Token::new("var", TokenKind::Var),
        Token::new("x", TokenKind::Identifier),
        Token::new("=", TokenKind::Assign),
        Token::new("1", TokenKind::Number),
        Token::new("-", TokenKind::Minus),
        Token::new("2", TokenKind::Number),
        Token::new("-", TokenKind::Minus),
        Token::new("3", TokenKind::Number),
    ])
    .parse().unwrap();

    assert_eq!(
        result,
        vec![StatementType::VariableDeclaration(
            VariableDeclarationStatement {
                identifier: String::from("x"),
                value: ExpressionType::BinaryOperation(BinaryOperationExpression::new(
                    ExpressionType::BinaryOperation(BinaryOperationExpression::new(
                        ExpressionType::Literal(LiteralType::Number(String::from("1"))),
                        BinaryOperator::Subtract,
                        ExpressionType::Literal(LiteralType::Number(String::from("2"))),
                    )),
                    BinaryOperator::Subtract,
                    ExpressionType::Literal(LiteralType::Number(String::from("3"))),
                )),
            }
        ),]
    )
}

#[test]
fn parses_combinations_4() {
    // var x = (1 + 2 * 3 > 5) && (4 < 10)
    let result = Parser::new(vec![
        Token::new("var", TokenKind::Var),
        Token::new("x", TokenKind::Identifier),
        Token::new("=", TokenKind::Assign),
        Token::new("(", TokenKind::LeftParenthesis),
        Token::new("1", TokenKind::Number),
        Token::new("+", TokenKind::Plus),
        Token::new("2", TokenKind::Number),
        Token::new("*", TokenKind::Times),
        Token::new("3", TokenKind::Number),
        Token::new(">", TokenKind::GreaterThan),
        Token::new("5", TokenKind::Number),
        Token::new(")", TokenKind::RightParenthesis),
        Token::new("&&", TokenKind::And),
        Token::new("(", TokenKind::LeftParenthesis),
        Token::new("4", TokenKind::Number),
        Token::new("<", TokenKind::LessThan),
        Token::new("10", TokenKind::Number),
        Token::new(")", TokenKind::RightParenthesis),
    ])
    .parse().unwrap();

    assert_eq!(
        result,
        vec![StatementType::VariableDeclaration(
            VariableDeclarationStatement {
                identifier: String::from("x"),
                value: ExpressionType::BinaryOperation(BinaryOperationExpression::new(
                    ExpressionType::BinaryOperation(BinaryOperationExpression::new(
                        ExpressionType::BinaryOperation(BinaryOperationExpression::new(
                            ExpressionType::Literal(LiteralType::Number(String::from("1"))),
                            BinaryOperator::Add,
                            ExpressionType::BinaryOperation(BinaryOperationExpression::new(
                                ExpressionType::Literal(LiteralType::Number(String::from("2"))),
                                BinaryOperator::Multiply,
                                ExpressionType::Literal(LiteralType::Number(String::from("3"))),
                            ))
                        )),
                        BinaryOperator::GreaterThan,
                        ExpressionType::Literal(LiteralType::Number(String::from("5"))),
                    )),
                    BinaryOperator::And,
                    ExpressionType::BinaryOperation(BinaryOperationExpression::new(
                        ExpressionType::Literal(LiteralType::Number(String::from("4"))),
                        BinaryOperator::LessThan,
                        ExpressionType::Literal(LiteralType::Number(String::from("10"))),
                    ))
                ))
            }
        ),]
    )
}

#[test]
fn parses_combinations_3() {
    // var x = 1 + (2 * 3 > 5 && 4 < 10)
    let result = Parser::new(vec![
        Token::new("var", TokenKind::Var),
        Token::new("x", TokenKind::Identifier),
        Token::new("=", TokenKind::Assign),
        Token::new("1", TokenKind::Number),
        Token::new("+", TokenKind::Plus),
        Token::new("(", TokenKind::LeftParenthesis),
        Token::new("2", TokenKind::Number),
        Token::new("*", TokenKind::Times),
        Token::new("3", TokenKind::Number),
        Token::new(">", TokenKind::GreaterThan),
        Token::new("5", TokenKind::Number),
        Token::new("&&", TokenKind::And),
        Token::new("4", TokenKind::Number),
        Token::new("<", TokenKind::LessThan),
        Token::new("10", TokenKind::Number),
        Token::new(")", TokenKind::RightParenthesis),
    ])
    .parse().unwrap();

    assert_eq!(
        result,
        vec![StatementType::VariableDeclaration(
            VariableDeclarationStatement {
                identifier: String::from("x"),
                value: ExpressionType::BinaryOperation(BinaryOperationExpression::new(
                    ExpressionType::Literal(LiteralType::Number(String::from("1"))),
                    BinaryOperator::Add,
                    ExpressionType::BinaryOperation(BinaryOperationExpression::new(
                        ExpressionType::BinaryOperation(BinaryOperationExpression::new(
                            ExpressionType::BinaryOperation(BinaryOperationExpression::new(
                                ExpressionType::Literal(LiteralType::Number(String::from("2"))),
                                BinaryOperator::Multiply,
                                ExpressionType::Literal(LiteralType::Number(String::from("3"))),
                            )),
                            BinaryOperator::GreaterThan,
                            ExpressionType::Literal(LiteralType::Number(String::from("5"))),
                        )),
                        BinaryOperator::And,
                        ExpressionType::BinaryOperation(BinaryOperationExpression::new(
                            ExpressionType::Literal(LiteralType::Number(String::from("4"))),
                            BinaryOperator::LessThan,
                            ExpressionType::Literal(LiteralType::Number(String::from("10"))),
                        )),
                    ))
                ))
            }
        ),]
    )
}

#[test]
fn parses_combinations_2() {
    // var x = (1 + 2) * 3 > 5 && 4 < 10
    let result = Parser::new(vec![
        Token::new("var", TokenKind::Var),
        Token::new("x", TokenKind::Identifier),
        Token::new("=", TokenKind::Assign),
        Token::new("(", TokenKind::LeftParenthesis),
        Token::new("1", TokenKind::Number),
        Token::new("+", TokenKind::Plus),
        Token::new("2", TokenKind::Number),
        Token::new(")", TokenKind::RightParenthesis),
        Token::new("*", TokenKind::Times),
        Token::new("3", TokenKind::Number),
        Token::new(">", TokenKind::GreaterThan),
        Token::new("5", TokenKind::Number),
        Token::new("&&", TokenKind::And),
        Token::new("4", TokenKind::Number),
        Token::new("<", TokenKind::LessThan),
        Token::new("10", TokenKind::Number),
    ])
    .parse().unwrap();

    assert_eq!(
        result,
        vec![StatementType::VariableDeclaration(
            VariableDeclarationStatement {
                identifier: String::from("x"),
                value: ExpressionType::BinaryOperation(BinaryOperationExpression::new(
                    ExpressionType::BinaryOperation(BinaryOperationExpression::new(
                        ExpressionType::BinaryOperation(BinaryOperationExpression::new(
                            ExpressionType::BinaryOperation(BinaryOperationExpression::new(
                                ExpressionType::Literal(LiteralType::Number(String::from("1"))),
                                BinaryOperator::Add,
                                ExpressionType::Literal(LiteralType::Number(String::from("2"))),
                            )),
                            BinaryOperator::Multiply,
                            ExpressionType::Literal(LiteralType::Number(String::from("3"))),
                        )),
                        BinaryOperator::GreaterThan,
                        ExpressionType::Literal(LiteralType::Number(String::from("5"))),
                    )),
                    BinaryOperator::And,
                    ExpressionType::BinaryOperation(BinaryOperationExpression::new(
                        ExpressionType::Literal(LiteralType::Number(String::from("4"))),
                        BinaryOperator::LessThan,
                        ExpressionType::Literal(LiteralType::Number(String::from("10"))),
                    ))
                ))
            }
        ),]
    )
}

#[test]
fn parses_combinations_1() {
    // var x = 1 + 2 * 3 > 5 && 4 < 10
    let result = Parser::new(vec![
        Token::new("var", TokenKind::Var),
        Token::new("x", TokenKind::Identifier),
        Token::new("=", TokenKind::Assign),
        Token::new("1", TokenKind::Number),
        Token::new("+", TokenKind::Plus),
        Token::new("2", TokenKind::Number),
        Token::new("*", TokenKind::Times),
        Token::new("3", TokenKind::Number),
        Token::new(">", TokenKind::GreaterThan),
        Token::new("5", TokenKind::Number),
        Token::new("&&", TokenKind::And),
        Token::new("4", TokenKind::Number),
        Token::new("<", TokenKind::LessThan),
        Token::new("10", TokenKind::Number),
    ])
    .parse().unwrap();

    assert_eq!(
        result,
        vec![StatementType::VariableDeclaration(
            VariableDeclarationStatement {
                identifier: String::from("x"),
                value: ExpressionType::BinaryOperation(BinaryOperationExpression::new(
                    ExpressionType::BinaryOperation(BinaryOperationExpression::new(
                        ExpressionType::BinaryOperation(BinaryOperationExpression::new(
                            ExpressionType::Literal(LiteralType::Number(String::from("1"))),
                            BinaryOperator::Add,
                            ExpressionType::BinaryOperation(BinaryOperationExpression::new(
                                ExpressionType::Literal(LiteralType::Number(String::from("2"))),
                                BinaryOperator::Multiply,
                                ExpressionType::Literal(LiteralType::Number(String::from("3"))),
                            ))
                        )),
                        BinaryOperator::GreaterThan,
                        ExpressionType::Literal(LiteralType::Number(String::from("5"))),
                    )),
                    BinaryOperator::And,
                    ExpressionType::BinaryOperation(BinaryOperationExpression::new(
                        ExpressionType::Literal(LiteralType::Number(String::from("4"))),
                        BinaryOperator::LessThan,
                        ExpressionType::Literal(LiteralType::Number(String::from("10"))),
                    ))
                ))
            }
        ),]
    )
}

#[test]
fn binary_parses_logical_operator_1() {
    // var x = true && false
    let result = Parser::new(vec![
        Token::new("var", TokenKind::Var),
        Token::new("x", TokenKind::Identifier),
        Token::new("=", TokenKind::Assign),
        Token::new("true", TokenKind::True),
        Token::new("&&", TokenKind::And),
        Token::new("false", TokenKind::False),
    ])
    .parse().unwrap();

    assert_eq!(
        result,
        vec![StatementType::VariableDeclaration(
            VariableDeclarationStatement {
                identifier: String::from("x"),
                value: ExpressionType::BinaryOperation(BinaryOperationExpression::new(
                    ExpressionType::Literal(LiteralType::Boolean(true)),
                    BinaryOperator::And,
                    ExpressionType::Literal(LiteralType::Boolean(false)),
                ))
            }
        ),]
    )
}

#[test]
fn binary_parses_logical_operator_2() {
    // var x = true || false && true
    let result = Parser::new(vec![
        Token::new("var", TokenKind::Var),
        Token::new("x", TokenKind::Identifier),
        Token::new("=", TokenKind::Assign),
        Token::new("true", TokenKind::True),
        Token::new("||", TokenKind::Or),
        Token::new("false", TokenKind::False),
        Token::new("&&", TokenKind::And),
        Token::new("true", TokenKind::True),
    ])
    .parse().unwrap();

    assert_eq!(
        result,
        vec![StatementType::VariableDeclaration(
            VariableDeclarationStatement {
                identifier: String::from("x"),
                value: ExpressionType::BinaryOperation(BinaryOperationExpression::new(
                    ExpressionType::Literal(LiteralType::Boolean(true)),
                    BinaryOperator::Or,
                    ExpressionType::BinaryOperation(BinaryOperationExpression::new(
                        ExpressionType::Literal(LiteralType::Boolean(false)),
                        BinaryOperator::And,
                        ExpressionType::Literal(LiteralType::Boolean(true)),
                    )),
                ))
            }
        ),]
    )
}

#[test]
fn binary_parses_logical_operator_3() {
    // var x = (true || false) && true
    let result = Parser::new(vec![
        Token::new("var", TokenKind::Var),
        Token::new("x", TokenKind::Identifier),
        Token::new("=", TokenKind::Assign),
        Token::new("(", TokenKind::LeftParenthesis),
        Token::new("true", TokenKind::True),
        Token::new("||", TokenKind::Or),
        Token::new("false", TokenKind::False),
        Token::new(")", TokenKind::RightParenthesis),
        Token::new("&&", TokenKind::And),
        Token::new("true", TokenKind::True),
    ])
    .parse().unwrap();

    assert_eq!(
        result,
        vec![StatementType::VariableDeclaration(
            VariableDeclarationStatement {
                identifier: String::from("x"),
                value: ExpressionType::BinaryOperation(BinaryOperationExpression::new(
                    ExpressionType::BinaryOperation(BinaryOperationExpression::new(
                        ExpressionType::Literal(LiteralType::Boolean(true)),
                        BinaryOperator::Or,
                        ExpressionType::Literal(LiteralType::Boolean(false)),
                    )),
                    BinaryOperator::And,
                    ExpressionType::Literal(LiteralType::Boolean(true)),
                ))
            }
        ),]
    )
}

#[test]
fn binary_parses_logical_operator_4() {
    // var x = 1 < 2 && 3 < 4
    let result = Parser::new(vec![
        Token::new("var", TokenKind::Var),
        Token::new("x", TokenKind::Identifier),
        Token::new("=", TokenKind::Assign),
        Token::new("1", TokenKind::Number),
        Token::new("<", TokenKind::LessThan),
        Token::new("2", TokenKind::Number),
        Token::new("&&", TokenKind::And),
        Token::new("3", TokenKind::Number),
        Token::new("<", TokenKind::LessThan),
        Token::new("4", TokenKind::Number),
    ])
    .parse().unwrap();

    assert_eq!(
        result,
        vec![StatementType::VariableDeclaration(
            VariableDeclarationStatement {
                identifier: String::from("x"),
                value: ExpressionType::BinaryOperation(BinaryOperationExpression::new(
                    ExpressionType::BinaryOperation(BinaryOperationExpression::new(
                        ExpressionType::Literal(LiteralType::Number(String::from("1"))),
                        BinaryOperator::LessThan,
                        ExpressionType::Literal(LiteralType::Number(String::from("2"))),
                    )),
                    BinaryOperator::And,
                    ExpressionType::BinaryOperation(BinaryOperationExpression::new(
                        ExpressionType::Literal(LiteralType::Number(String::from("3"))),
                        BinaryOperator::LessThan,
                        ExpressionType::Literal(LiteralType::Number(String::from("4"))),
                    ))
                ))
            }
        ),]
    )
}

#[test]
fn binary_parses_logical_operator_5() {
    // var x = 1 < 2 || 3 > 4 && 5 < 6
    let result = Parser::new(vec![
        Token::new("var", TokenKind::Var),
        Token::new("x", TokenKind::Identifier),
        Token::new("=", TokenKind::Assign),
        Token::new("1", TokenKind::Number),
        Token::new("<", TokenKind::LessThan),
        Token::new("2", TokenKind::Number),
        Token::new("||", TokenKind::Or),
        Token::new("3", TokenKind::Number),
        Token::new(">", TokenKind::GreaterThan),
        Token::new("4", TokenKind::Number),
        Token::new("&&", TokenKind::And),
        Token::new("5", TokenKind::Number),
        Token::new("<", TokenKind::LessThan),
        Token::new("6", TokenKind::Number),
    ])
    .parse().unwrap();

    assert_eq!(
        result,
        vec![StatementType::VariableDeclaration(
            VariableDeclarationStatement {
                identifier: String::from("x"),
                value: ExpressionType::BinaryOperation(BinaryOperationExpression::new(
                    ExpressionType::BinaryOperation(BinaryOperationExpression::new(
                        ExpressionType::Literal(LiteralType::Number(String::from("1"))),
                        BinaryOperator::LessThan,
                        ExpressionType::Literal(LiteralType::Number(String::from("2"))),
                    )),
                    BinaryOperator::Or,
                    ExpressionType::BinaryOperation(BinaryOperationExpression::new(
                        ExpressionType::BinaryOperation(BinaryOperationExpression::new(
                            ExpressionType::Literal(LiteralType::Number(String::from("3"))),
                            BinaryOperator::GreaterThan,
                            ExpressionType::Literal(LiteralType::Number(String::from("4"))),
                        )),
                        BinaryOperator::And,
                        ExpressionType::BinaryOperation(BinaryOperationExpression::new(
                            ExpressionType::Literal(LiteralType::Number(String::from("5"))),
                            BinaryOperator::LessThan,
                            ExpressionType::Literal(LiteralType::Number(String::from("6"))),
                        ))
                    ))
                ))
            }
        ),]
    )
}

#[test]
fn binary_parses_comparison_vs_arithmetic_precedence_5() {
    // var x = 10 - (5 == 5)
    let result = Parser::new(vec![
        Token::new("var", TokenKind::Var),
        Token::new("x", TokenKind::Identifier),
        Token::new("=", TokenKind::Assign),
        Token::new("10", TokenKind::Number),
        Token::new("-", TokenKind::Minus),
        Token::new("(", TokenKind::LeftParenthesis),
        Token::new("5", TokenKind::Number),
        Token::new("==", TokenKind::Equal),
        Token::new("5", TokenKind::Number),
        Token::new(")", TokenKind::RightParenthesis),
    ])
    .parse().unwrap();

    assert_eq!(
        result,
        vec![StatementType::VariableDeclaration(
            VariableDeclarationStatement {
                identifier: String::from("x"),
                value: ExpressionType::BinaryOperation(BinaryOperationExpression::new(
                    ExpressionType::Literal(LiteralType::Number(String::from("10"))),
                    BinaryOperator::Subtract,
                    ExpressionType::BinaryOperation(BinaryOperationExpression::new(
                        ExpressionType::Literal(LiteralType::Number(String::from("5"))),
                        BinaryOperator::Equal,
                        ExpressionType::Literal(LiteralType::Number(String::from("5"))),
                    ))
                ))
            }
        ),]
    )
}

#[test]
fn binary_parses_comparison_vs_arithmetic_precedence_4() {
    // var x = 10 - 5 == 5
    let result = Parser::new(vec![
        Token::new("var", TokenKind::Var),
        Token::new("x", TokenKind::Identifier),
        Token::new("=", TokenKind::Assign),
        Token::new("10", TokenKind::Number),
        Token::new("-", TokenKind::Minus),
        Token::new("5", TokenKind::Number),
        Token::new("==", TokenKind::Equal),
        Token::new("5", TokenKind::Number),
    ])
    .parse().unwrap();

    assert_eq!(
        result,
        vec![StatementType::VariableDeclaration(
            VariableDeclarationStatement {
                identifier: String::from("x"),
                value: ExpressionType::BinaryOperation(BinaryOperationExpression::new(
                    ExpressionType::BinaryOperation(BinaryOperationExpression::new(
                        ExpressionType::Literal(LiteralType::Number(String::from("10"))),
                        BinaryOperator::Subtract,
                        ExpressionType::Literal(LiteralType::Number(String::from("5"))),
                    )),
                    BinaryOperator::Equal,
                    ExpressionType::Literal(LiteralType::Number(String::from("5"))),
                ))
            }
        ),]
    )
}

#[test]
fn binary_parses_comparison_vs_arithmetic_precedence_3() {
    // var x = (1 + 2) * 3 > 6
    let result = Parser::new(vec![
        Token::new("var", TokenKind::Var),
        Token::new("x", TokenKind::Identifier),
        Token::new("=", TokenKind::Assign),
        Token::new("(", TokenKind::LeftParenthesis),
        Token::new("1", TokenKind::Number),
        Token::new("+", TokenKind::Plus),
        Token::new("2", TokenKind::Number),
        Token::new(")", TokenKind::RightParenthesis),
        Token::new("*", TokenKind::Times),
        Token::new("3", TokenKind::Number),
        Token::new(">", TokenKind::GreaterThan),
        Token::new("6", TokenKind::Number),
    ])
    .parse().unwrap();

    assert_eq!(
        result,
        vec![StatementType::VariableDeclaration(
            VariableDeclarationStatement {
                identifier: String::from("x"),
                value: ExpressionType::BinaryOperation(BinaryOperationExpression::new(
                    ExpressionType::BinaryOperation(BinaryOperationExpression::new(
                        ExpressionType::BinaryOperation(BinaryOperationExpression::new(
                            ExpressionType::Literal(LiteralType::Number(String::from("1"))),
                            BinaryOperator::Add,
                            ExpressionType::Literal(LiteralType::Number(String::from("2"))),
                        )),
                        BinaryOperator::Multiply,
                        ExpressionType::Literal(LiteralType::Number(String::from("3"))),
                    )),
                    BinaryOperator::GreaterThan,
                    ExpressionType::Literal(LiteralType::Number(String::from("6"))),
                ))
            }
        ),]
    )
}

#[test]
fn binary_parses_comparison_vs_arithmetic_precedence_2() {
    // var x = 1 + 2 * 3 > 6
    let result = Parser::new(vec![
        Token::new("var", TokenKind::Var),
        Token::new("x", TokenKind::Identifier),
        Token::new("=", TokenKind::Assign),
        Token::new("1", TokenKind::Number),
        Token::new("+", TokenKind::Plus),
        Token::new("2", TokenKind::Number),
        Token::new("*", TokenKind::Times),
        Token::new("3", TokenKind::Number),
        Token::new(">", TokenKind::GreaterThan),
        Token::new("6", TokenKind::Number),
    ])
    .parse().unwrap();

    assert_eq!(
        result,
        vec![StatementType::VariableDeclaration(
            VariableDeclarationStatement {
                identifier: String::from("x"),
                value: ExpressionType::BinaryOperation(BinaryOperationExpression::new(
                    ExpressionType::BinaryOperation(BinaryOperationExpression::new(
                        ExpressionType::Literal(LiteralType::Number(String::from("1"))),
                        BinaryOperator::Add,
                        ExpressionType::BinaryOperation(BinaryOperationExpression::new(
                            ExpressionType::Literal(LiteralType::Number(String::from("2"))),
                            BinaryOperator::Multiply,
                            ExpressionType::Literal(LiteralType::Number(String::from("3"))),
                        )),
                    )),
                    BinaryOperator::GreaterThan,
                    ExpressionType::Literal(LiteralType::Number(String::from("6"))),
                ))
            }
        ),]
    )
}

#[test]
fn binary_parses_comparison_vs_arithmetic_precedence_1() {
    // var x = 1 + 2 > 2
    let result = Parser::new(vec![
        Token::new("var", TokenKind::Var),
        Token::new("x", TokenKind::Identifier),
        Token::new("=", TokenKind::Assign),
        Token::new("1", TokenKind::Number),
        Token::new("+", TokenKind::Plus),
        Token::new("2", TokenKind::Number),
        Token::new(">", TokenKind::GreaterThan),
        Token::new("2", TokenKind::Number),
    ])
    .parse().unwrap();

    assert_eq!(
        result,
        vec![StatementType::VariableDeclaration(
            VariableDeclarationStatement {
                identifier: String::from("x"),
                value: ExpressionType::BinaryOperation(BinaryOperationExpression::new(
                    ExpressionType::BinaryOperation(BinaryOperationExpression::new(
                        ExpressionType::Literal(LiteralType::Number(String::from("1"))),
                        BinaryOperator::Add,
                        ExpressionType::Literal(LiteralType::Number(String::from("2"))),
                    )),
                    BinaryOperator::GreaterThan,
                    ExpressionType::Literal(LiteralType::Number(String::from("2"))),
                ))
            }
        ),]
    )
}

#[test]
fn binary_parses_unary_5() {
    // var x = -(-1 + 2)
    let result = Parser::new(vec![
        Token::new("var", TokenKind::Var),
        Token::new("x", TokenKind::Identifier),
        Token::new("=", TokenKind::Assign),
        Token::new("-", TokenKind::Minus),
        Token::new("(", TokenKind::LeftParenthesis),
        Token::new("-", TokenKind::Minus),
        Token::new("1", TokenKind::Number),
        Token::new("+", TokenKind::Plus),
        Token::new("2", TokenKind::Number),
        Token::new(")", TokenKind::RightParenthesis),
    ])
    .parse().unwrap();

    assert_eq!(
        result,
        vec![StatementType::VariableDeclaration(
            VariableDeclarationStatement {
                identifier: String::from("x"),
                value: ExpressionType::UnaryOperation(UnaryOperationExpression::new(
                    UnaryOperator::Minus,
                    ExpressionType::BinaryOperation(BinaryOperationExpression::new(
                        ExpressionType::UnaryOperation(UnaryOperationExpression::new(
                            UnaryOperator::Minus,
                            ExpressionType::Literal(LiteralType::Number(String::from("1"))),
                        )),
                        BinaryOperator::Add,
                        ExpressionType::Literal(LiteralType::Number(String::from("2")))
                    ))
                ))
            }
        ),]
    )
}

#[test]
fn binary_parses_unary_4() {
    // var x = -(1 * 2)
    let result = Parser::new(vec![
        Token::new("var", TokenKind::Var),
        Token::new("x", TokenKind::Identifier),
        Token::new("=", TokenKind::Assign),
        Token::new("-", TokenKind::Minus),
        Token::new("(", TokenKind::LeftParenthesis),
        Token::new("1", TokenKind::Number),
        Token::new("*", TokenKind::Times),
        Token::new("2", TokenKind::Number),
        Token::new(")", TokenKind::RightParenthesis),
    ])
    .parse().unwrap();

    assert_eq!(
        result,
        vec![StatementType::VariableDeclaration(
            VariableDeclarationStatement {
                identifier: String::from("x"),
                value: ExpressionType::UnaryOperation(UnaryOperationExpression::new(
                    UnaryOperator::Minus,
                    ExpressionType::BinaryOperation(BinaryOperationExpression::new(
                        ExpressionType::Literal(LiteralType::Number(String::from("1"))),
                        BinaryOperator::Multiply,
                        ExpressionType::Literal(LiteralType::Number(String::from("2"))),
                    ))
                ))
            }
        ),]
    )
}

#[test]
fn binary_parses_unary_3() {
    // var x = -1 * 2
    let result = Parser::new(vec![
        Token::new("var", TokenKind::Var),
        Token::new("x", TokenKind::Identifier),
        Token::new("=", TokenKind::Assign),
        Token::new("-", TokenKind::Minus),
        Token::new("1", TokenKind::Number),
        Token::new("*", TokenKind::Times),
        Token::new("2", TokenKind::Number),
    ])
    .parse().unwrap();

    assert_eq!(
        result,
        vec![StatementType::VariableDeclaration(
            VariableDeclarationStatement {
                identifier: String::from("x"),
                value: ExpressionType::BinaryOperation(BinaryOperationExpression::new(
                    ExpressionType::UnaryOperation(UnaryOperationExpression::new(
                        UnaryOperator::Minus,
                        ExpressionType::Literal(LiteralType::Number(String::from("1"))),
                    )),
                    BinaryOperator::Multiply,
                    ExpressionType::Literal(LiteralType::Number(String::from("2")))
                ))
            }
        ),]
    )
}

#[test]
fn binary_parses_unary_2() {
    // var x = -(1 + 2)
    let result = Parser::new(vec![
        Token::new("var", TokenKind::Var),
        Token::new("x", TokenKind::Identifier),
        Token::new("=", TokenKind::Assign),
        Token::new("-", TokenKind::Minus),
        Token::new("(", TokenKind::LeftParenthesis),
        Token::new("1", TokenKind::Number),
        Token::new("+", TokenKind::Plus),
        Token::new("2", TokenKind::Number),
        Token::new(")", TokenKind::RightParenthesis),
    ])
    .parse().unwrap();

    assert_eq!(
        result,
        vec![StatementType::VariableDeclaration(
            VariableDeclarationStatement {
                identifier: String::from("x"),
                value: ExpressionType::UnaryOperation(UnaryOperationExpression::new(
                    UnaryOperator::Minus,
                    ExpressionType::BinaryOperation(BinaryOperationExpression::new(
                        ExpressionType::Literal(LiteralType::Number(String::from("1"))),
                        BinaryOperator::Add,
                        ExpressionType::Literal(LiteralType::Number(String::from("2")))
                    )),
                ))
            }
        ),]
    )
}

#[test]
fn binary_parses_unary_1() {
    // var x = -1 + 2
    let result = Parser::new(vec![
        Token::new("var", TokenKind::Var),
        Token::new("x", TokenKind::Identifier),
        Token::new("=", TokenKind::Assign),
        Token::new("-", TokenKind::Minus),
        Token::new("1", TokenKind::Number),
        Token::new("+", TokenKind::Plus),
        Token::new("2", TokenKind::Number),
    ])
    .parse().unwrap();

    assert_eq!(
        result,
        vec![StatementType::VariableDeclaration(
            VariableDeclarationStatement {
                identifier: String::from("x"),
                value: ExpressionType::BinaryOperation(BinaryOperationExpression::new(
                    ExpressionType::UnaryOperation(UnaryOperationExpression::new(
                        UnaryOperator::Minus,
                        ExpressionType::Literal(LiteralType::Number(String::from("1"))),
                    )),
                    BinaryOperator::Add,
                    ExpressionType::Literal(LiteralType::Number(String::from("2"))),
                ))
            }
        ),]
    )
}

#[test]
fn binary_parses_parenthesis_overriding_precedence_5() {
    // var x = ((1 + 2) * 3) + 4
    let result = Parser::new(vec![
        Token::new("var", TokenKind::Var),
        Token::new("x", TokenKind::Identifier),
        Token::new("=", TokenKind::Assign),
        Token::new("(", TokenKind::LeftParenthesis),
        Token::new("(", TokenKind::LeftParenthesis),
        Token::new("1", TokenKind::Number),
        Token::new("+", TokenKind::Plus),
        Token::new("2", TokenKind::Number),
        Token::new(")", TokenKind::RightParenthesis),
        Token::new("*", TokenKind::Times),
        Token::new("3", TokenKind::Number),
        Token::new(")", TokenKind::RightParenthesis),
        Token::new("+", TokenKind::Plus),
        Token::new("4", TokenKind::Number),
    ])
    .parse().unwrap();

    assert_eq!(
        result,
        vec![StatementType::VariableDeclaration(
            VariableDeclarationStatement {
                identifier: String::from("x"),
                value: ExpressionType::BinaryOperation(BinaryOperationExpression {
                    left: Box::new(ExpressionType::BinaryOperation(BinaryOperationExpression {
                        left: Box::new(ExpressionType::BinaryOperation(
                            BinaryOperationExpression {
                                left: Box::new(ExpressionType::Literal(LiteralType::Number(String::from("1")))),
                                operator: BinaryOperator::Add,
                                right: Box::new(ExpressionType::Literal(LiteralType::Number(String::from("2"))))
                            }
                        )),
                        operator: BinaryOperator::Multiply,
                        right: Box::new(ExpressionType::Literal(LiteralType::Number(String::from("3"))))
                    })),
                    operator: BinaryOperator::Add,
                    right: Box::new(ExpressionType::Literal(LiteralType::Number(String::from("4")))),
                })
            }
        ),]
    )
}

#[test]
fn binary_parses_parenthesis_overriding_precedence_4() {
    // var x = (1 + 2) * (3 + 4)
    let result = Parser::new(vec![
        Token::new("var", TokenKind::Var),
        Token::new("x", TokenKind::Identifier),
        Token::new("=", TokenKind::Assign),
        Token::new("(", TokenKind::LeftParenthesis),
        Token::new("1", TokenKind::Number),
        Token::new("+", TokenKind::Plus),
        Token::new("2", TokenKind::Number),
        Token::new(")", TokenKind::RightParenthesis),
        Token::new("*", TokenKind::Times),
        Token::new("(", TokenKind::LeftParenthesis),
        Token::new("3", TokenKind::Number),
        Token::new("+", TokenKind::Plus),
        Token::new("4", TokenKind::Number),
        Token::new(")", TokenKind::RightParenthesis),
    ])
    .parse().unwrap();

    assert_eq!(
        result,
        vec![StatementType::VariableDeclaration(
            VariableDeclarationStatement {
                identifier: String::from("x"),
                value: ExpressionType::BinaryOperation(BinaryOperationExpression {
                    left: Box::new(ExpressionType::BinaryOperation(BinaryOperationExpression {
                        left: Box::new(ExpressionType::Literal(LiteralType::Number(String::from("1")))),
                        operator: BinaryOperator::Add,
                        right: Box::new(ExpressionType::Literal(LiteralType::Number(String::from("2"))))
                    })),
                    operator: BinaryOperator::Multiply,
                    right: Box::new(ExpressionType::BinaryOperation(BinaryOperationExpression {
                        left: Box::new(ExpressionType::Literal(LiteralType::Number(String::from("3")))),
                        operator: BinaryOperator::Add,
                        right: Box::new(ExpressionType::Literal(LiteralType::Number(String::from("4"))))
                    }))
                })
            }
        ),]
    )
}

#[test]
fn binary_parses_parenthesis_overriding_precedence_3() {
    // var x = 10 - (5 - 2)
    let result = Parser::new(vec![
        Token::new("var", TokenKind::Var),
        Token::new("x", TokenKind::Identifier),
        Token::new("=", TokenKind::Assign),
        Token::new("10", TokenKind::Number),
        Token::new("-", TokenKind::Minus),
        Token::new("(", TokenKind::LeftParenthesis),
        Token::new("5", TokenKind::Number),
        Token::new("-", TokenKind::Minus),
        Token::new("2", TokenKind::Number),
        Token::new(")", TokenKind::RightParenthesis),
    ])
    .parse().unwrap();

    assert_eq!(
        result,
        vec![StatementType::VariableDeclaration(
            VariableDeclarationStatement {
                identifier: String::from("x"),
                value: ExpressionType::BinaryOperation(BinaryOperationExpression {
                    left: Box::new(ExpressionType::Literal(LiteralType::Number(String::from("10")))),
                    operator: BinaryOperator::Subtract,
                    right: Box::new(ExpressionType::BinaryOperation(BinaryOperationExpression {
                        left: Box::new(ExpressionType::Literal(LiteralType::Number(String::from("5")))),
                        operator: BinaryOperator::Subtract,
                        right: Box::new(ExpressionType::Literal(LiteralType::Number(String::from("2"))))
                    }))
                })
            }
        ),]
    )
}

#[test]
fn binary_parses_parenthesis_overriding_precedence_2() {
    // var x = (10 - 5) - 2
    let result = Parser::new(vec![
        Token::new("var", TokenKind::Var),
        Token::new("x", TokenKind::Identifier),
        Token::new("=", TokenKind::Assign),
        Token::new("(", TokenKind::LeftParenthesis),
        Token::new("10", TokenKind::Number),
        Token::new("-", TokenKind::Minus),
        Token::new("5", TokenKind::Number),
        Token::new(")", TokenKind::RightParenthesis),
        Token::new("-", TokenKind::Minus),
        Token::new("2", TokenKind::Number),
    ])
    .parse().unwrap();

    assert_eq!(
        result,
        vec![StatementType::VariableDeclaration(
            VariableDeclarationStatement {
                identifier: String::from("x"),
                value: ExpressionType::BinaryOperation(BinaryOperationExpression {
                    left: Box::new(ExpressionType::BinaryOperation(BinaryOperationExpression {
                        left: Box::new(ExpressionType::Literal(LiteralType::Number(String::from("10")))),
                        operator: BinaryOperator::Subtract,
                        right: Box::new(ExpressionType::Literal(LiteralType::Number(String::from("5"))))
                    })),
                    operator: BinaryOperator::Subtract,
                    right: Box::new(ExpressionType::Literal(LiteralType::Number(String::from("2")))),
                })
            }
        ),]
    )
}

#[test]
fn binary_parses_parenthesis_overriding_precedence_1() {
    // var x = (1 + 2) * 3
    let result = Parser::new(vec![
        Token::new("var", TokenKind::Var),
        Token::new("x", TokenKind::Identifier),
        Token::new("=", TokenKind::Assign),
        Token::new("(", TokenKind::LeftParenthesis),
        Token::new("1", TokenKind::Number),
        Token::new("+", TokenKind::Plus),
        Token::new("2", TokenKind::Number),
        Token::new(")", TokenKind::RightParenthesis),
        Token::new("*", TokenKind::Times),
        Token::new("3", TokenKind::Number),
    ])
    .parse().unwrap();

    assert_eq!(
        result,
        vec![StatementType::VariableDeclaration(
            VariableDeclarationStatement {
                identifier: String::from("x"),
                value: ExpressionType::BinaryOperation(BinaryOperationExpression {
                    left: Box::new(ExpressionType::BinaryOperation(BinaryOperationExpression {
                        left: Box::new(ExpressionType::Literal(LiteralType::Number(String::from("1")))),
                        operator: BinaryOperator::Add,
                        right: Box::new(ExpressionType::Literal(LiteralType::Number(String::from("2"))))
                    })),
                    operator: BinaryOperator::Multiply,
                    right: Box::new(ExpressionType::Literal(LiteralType::Number(String::from("3")))),
                })
            }
        ),]
    )
}

#[test]
fn binary_parses_basic_arithmetic_precedence_5() {
    // var x = 10 / (2 * 3)
    let result = Parser::new(vec![
        Token::new("var", TokenKind::Var),
        Token::new("x", TokenKind::Identifier),
        Token::new("=", TokenKind::Assign),
        Token::new("10", TokenKind::Number),
        Token::new("/", TokenKind::Divide),
        Token::new("(", TokenKind::LeftParenthesis),
        Token::new("2", TokenKind::Number),
        Token::new("*", TokenKind::Times),
        Token::new("3", TokenKind::Number),
        Token::new(")", TokenKind::RightParenthesis),
    ])
    .parse().unwrap();

    assert_eq!(
        result,
        vec![StatementType::VariableDeclaration(
            VariableDeclarationStatement {
                identifier: String::from("x"),
                value: ExpressionType::BinaryOperation(BinaryOperationExpression {
                    left: Box::new(ExpressionType::Literal(LiteralType::Number(String::from("10")))),
                    operator: BinaryOperator::Divide,
                    right: Box::new(ExpressionType::BinaryOperation(BinaryOperationExpression {
                        left: Box::new(ExpressionType::Literal(LiteralType::Number(String::from("2")))),
                        operator: BinaryOperator::Multiply,
                        right: Box::new(ExpressionType::Literal(LiteralType::Number(String::from("3"))))
                    }))
                })
            }
        ),]
    )
}

#[test]
fn binary_parses_basic_arithmetic_precedence_4() {
    // var x = 10 / 2 * 3
    let result = Parser::new(vec![
        Token::new("var", TokenKind::Var),
        Token::new("x", TokenKind::Identifier),
        Token::new("=", TokenKind::Assign),
        Token::new("10", TokenKind::Number),
        Token::new("/", TokenKind::Divide),
        Token::new("2", TokenKind::Number),
        Token::new("*", TokenKind::Times),
        Token::new("3", TokenKind::Number),
    ])
    .parse().unwrap();

    assert_eq!(
        result,
        vec![StatementType::VariableDeclaration(
            VariableDeclarationStatement {
                identifier: String::from("x"),
                value: ExpressionType::BinaryOperation(BinaryOperationExpression {
                    left: Box::new(ExpressionType::BinaryOperation(BinaryOperationExpression {
                        left: Box::new(ExpressionType::Literal(LiteralType::Number(String::from("10")))),
                        operator: BinaryOperator::Divide,
                        right: Box::new(ExpressionType::Literal(LiteralType::Number(String::from("2"))))
                    })),
                    operator: BinaryOperator::Multiply,
                    right: Box::new(ExpressionType::Literal(LiteralType::Number(String::from("3")))),
                })
            }
        ),]
    )
}

#[test]
fn binary_parses_basic_arithmetic_precedence_3() {
    // var x = 10 - 5 - 2
    let result = Parser::new(vec![
        Token::new("var", TokenKind::Var),
        Token::new("x", TokenKind::Identifier),
        Token::new("=", TokenKind::Assign),
        Token::new("10", TokenKind::Number),
        Token::new("-", TokenKind::Minus),
        Token::new("5", TokenKind::Number),
        Token::new("-", TokenKind::Minus),
        Token::new("2", TokenKind::Number),
    ])
    .parse().unwrap();

    assert_eq!(
        result,
        vec![StatementType::VariableDeclaration(
            VariableDeclarationStatement {
                identifier: String::from("x"),
                value: ExpressionType::BinaryOperation(BinaryOperationExpression {
                    left: Box::new(ExpressionType::BinaryOperation(BinaryOperationExpression {
                        left: Box::new(ExpressionType::Literal(LiteralType::Number(String::from("10")))),
                        operator: BinaryOperator::Subtract,
                        right: Box::new(ExpressionType::Literal(LiteralType::Number(String::from("5"))))
                    })),
                    operator: BinaryOperator::Subtract,
                    right: Box::new(ExpressionType::Literal(LiteralType::Number(String::from("2")))),
                })
            }
        ),]
    )
}

#[test]
fn binary_parses_basic_arithmetic_precedence_2() {
    // var x = 1 * 2 + 3
    let result = Parser::new(vec![
        Token::new("var", TokenKind::Var),
        Token::new("x", TokenKind::Identifier),
        Token::new("=", TokenKind::Assign),
        Token::new("1", TokenKind::Number),
        Token::new("*", TokenKind::Times),
        Token::new("2", TokenKind::Number),
        Token::new("+", TokenKind::Plus),
        Token::new("3", TokenKind::Number),
    ])
    .parse().unwrap();

    assert_eq!(
        result,
        vec![StatementType::VariableDeclaration(
            VariableDeclarationStatement {
                identifier: String::from("x"),
                value: ExpressionType::BinaryOperation(BinaryOperationExpression {
                    left: Box::new(ExpressionType::BinaryOperation(BinaryOperationExpression {
                        left: Box::new(ExpressionType::Literal(LiteralType::Number(String::from("1")))),
                        operator: BinaryOperator::Multiply,
                        right: Box::new(ExpressionType::Literal(LiteralType::Number(String::from("2"))))
                    })),
                    operator: BinaryOperator::Add,
                    right: Box::new(ExpressionType::Literal(LiteralType::Number(String::from("3")))),
                })
            }
        ),]
    )
}

#[test]
fn binary_parses_basic_arithmetic_precedence_1() {
    // var x = 1 + 2 * 3
    let result = Parser::new(vec![
        Token::new("var", TokenKind::Var),
        Token::new("x", TokenKind::Identifier),
        Token::new("=", TokenKind::Assign),
        Token::new("1", TokenKind::Number),
        Token::new("+", TokenKind::Plus),
        Token::new("2", TokenKind::Number),
        Token::new("*", TokenKind::Times),
        Token::new("3", TokenKind::Number),
    ])
    .parse().unwrap();

    assert_eq!(
        result,
        vec![StatementType::VariableDeclaration(
            VariableDeclarationStatement {
                identifier: String::from("x"),
                value: ExpressionType::BinaryOperation(BinaryOperationExpression {
                    left: Box::new(ExpressionType::Literal(LiteralType::Number(String::from("1")))),
                    operator: BinaryOperator::Add,
                    right: Box::new(ExpressionType::BinaryOperation(BinaryOperationExpression {
                        left: Box::new(ExpressionType::Literal(LiteralType::Number(String::from("2")))),
                        operator: BinaryOperator::Multiply,
                        right: Box::new(ExpressionType::Literal(LiteralType::Number(String::from("3"))))
                    }))
                })
            }
        ),]
    )
}

#[test]
fn parses_list_declaration_complex() {
    let result = Parser::new(vec![
        Token::new("var", TokenKind::Var),
        Token::new("x", TokenKind::Identifier),
        Token::new("=", TokenKind::Assign),
        Token::new("[", TokenKind::LeftBracket),
        Token::new("fn", TokenKind::Fn),
        Token::new("(", TokenKind::LeftParenthesis),
        Token::new(")", TokenKind::RightParenthesis),
        Token::new("{", TokenKind::LeftCurly),
        Token::new("}", TokenKind::RightCurly),
        Token::new(",", TokenKind::Comma),
        Token::new("foo", TokenKind::Identifier),
        Token::new(",", TokenKind::Comma),
        Token::new("bar", TokenKind::Identifier),
        Token::new("(", TokenKind::LeftParenthesis),
        Token::new(")", TokenKind::RightParenthesis),
        Token::new(",", TokenKind::Comma),
        Token::new("[", TokenKind::LeftBracket),
        Token::new("]", TokenKind::RightBracket),
        Token::new(",", TokenKind::Comma),
        Token::new("-", TokenKind::Minus),
        Token::new("1", TokenKind::Number),
        Token::new("+", TokenKind::Plus),
        Token::new("2", TokenKind::Number),
        Token::new("]", TokenKind::RightBracket),
    ])
    .parse().unwrap();

    assert_eq!(
        result,
        vec![StatementType::VariableDeclaration(
            VariableDeclarationStatement {
                identifier: String::from("x"),
                value: ExpressionType::List(ListExpression {
                    values: vec![
                        ExpressionType::FunctionDeclaration(FunctionDeclarationExpression {
                            parameters: vec![],
                            body: Block { statements: vec![] }
                        }),
                        ExpressionType::Identifier(
                            task_automation::parser::expressions::IdentifierExpression {
                                name: String::from("foo")
                            }
                        ),
                        ExpressionType::FunctionCall(CallExpression { value: Box::new(ExpressionType::Identifier(IdentifierExpression { name: String::from("bar") })), parameters: (vec![])
                        }),
                        ExpressionType::List(ListExpression { values: vec![] }),
                        ExpressionType::BinaryOperation(BinaryOperationExpression::new(
                            ExpressionType::UnaryOperation(UnaryOperationExpression::new(
                                UnaryOperator::Minus,
                                ExpressionType::Literal(LiteralType::Number(String::from("1"))),
                            )),
                            BinaryOperator::Add,
                            ExpressionType::Literal(LiteralType::Number(String::from("2"))),
                        ))
                    ]
                })
            }
        ),]
    )
}

#[test]
fn parses_list_declaration_literals() {
    let result = Parser::new(vec![
        Token::new("var", TokenKind::Var),
        Token::new("x", TokenKind::Identifier),
        Token::new("=", TokenKind::Assign),
        Token::new("[", TokenKind::LeftBracket),
        Token::new("1", TokenKind::Number),
        Token::new(",", TokenKind::Comma),
        Token::new("Hello world", TokenKind::String),
        Token::new(",", TokenKind::Comma),
        Token::new("true", TokenKind::True),
        Token::new("]", TokenKind::RightBracket),
    ])
    .parse().unwrap();

    assert_eq!(
        result,
        vec![StatementType::VariableDeclaration(
            VariableDeclarationStatement {
                identifier: String::from("x"),
                value: ExpressionType::List(ListExpression {
                    values: vec![
                        ExpressionType::Literal(LiteralType::Number(String::from("1"))),
                        ExpressionType::Literal(LiteralType::String(String::from("Hello world"))),
                        ExpressionType::Literal(LiteralType::Boolean(true))
                    ]
                })
            }
        ),]
    )
}

#[test]
fn parses_list_declaration_empty() {
    let result = Parser::new(vec![
        Token::new("var", TokenKind::Var),
        Token::new("x", TokenKind::Identifier),
        Token::new("=", TokenKind::Assign),
        Token::new("[", TokenKind::LeftBracket),
        Token::new("]", TokenKind::RightBracket),
    ])
    .parse().unwrap();

    assert_eq!(
        result,
        vec![StatementType::VariableDeclaration(
            VariableDeclarationStatement {
                identifier: String::from("x"),
                value: ExpressionType::List(ListExpression { values: vec![] })
            }
        ),]
    )
}

fn op(l: ExpressionType, operator: BinaryOperator, r: ExpressionType) -> ExpressionType {
    ExpressionType::BinaryOperation(BinaryOperationExpression::new(l, operator, r))
}

fn name(n: &str) -> ExpressionType {
    ExpressionType::Identifier(IdentifierExpression { name: n.to_string() })
}

#[test]
fn parenthesised_group_stays_one_operand() {
    // var x = a || (b + c) * d
    let result = Parser::new(vec![
        Token::new("var", TokenKind::Var),
        Token::new("x", TokenKind::Identifier),
        Token::new("=", TokenKind::Assign),
        Token::new("a", TokenKind::Identifier),
        Token::new("||", TokenKind::Or),
        Token::new("(", TokenKind::LeftParenthesis),
        Token::new("b", TokenKind::Identifier),
        Token::new("+", TokenKind::Plus),
        Token::new("c", TokenKind::Identifier),
        Token::new(")", TokenKind::RightParenthesis),
        Token::new("*", TokenKind::Times),
        Token::new("d", TokenKind::Identifier),
    ])
    .parse()
    .unwrap();
    let expected = op(
        name("a"),
        BinaryOperator::Or,
        op(op(name("b"), BinaryOperator::Add, name("c")), BinaryOperator::Multiply, name("d")),
    );
    assert_eq!(
        result,
        vec![StatementType::VariableDeclaration(VariableDeclarationStatement { identifier: "x".to_string(), value: expected })]
    );
}

#[test]
fn mixed_chain_groups_by_precedence() {
    // var x = a || b + c * d && e
    let result = Parser::new(vec![
        Token::new("var", TokenKind::Var),
        Token::new("x", TokenKind::Identifier),
        Token::new("=", TokenKind::Assign),
        Token::new("a", TokenKind::Identifier),
        Token::new("||", TokenKind::Or),
        Token::new("b", TokenKind::Identifier),
        Token::new("+", TokenKind::Plus),
        Token::new("c", TokenKind::Identifier),
        Token::new("*", TokenKind::Times),
        Token::new("d", TokenKind::Identifier),
        Token::new("&&", TokenKind::And),
        Token::new("e", TokenKind::Identifier),
    ])
    .parse()
    .unwrap();
    let expected = op(
        name("a"),
        BinaryOperator::Or,
        op(
            op(name("b"), BinaryOperator::Add, op(name("c"), BinaryOperator::Multiply, name("d"))),
            BinaryOperator::And,
            name("e"),
        ),
    );
    assert_eq!(
        result,
        vec![StatementType::VariableDeclaration(VariableDeclarationStatement { identifier: "x".to_string(), value: expected })]
    );
}
