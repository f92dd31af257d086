use crate::amarok::literal::{
    add_operator, multiply_operator, operator_from_add_text, operator_from_multiply_text,
    unquote_string, unquoted,
};
use crate::amarok::span::{Span, Spanned};
use crate::amarok::syntax::{
    expression_model, expression_models, name_texts, statement_model, statement_models,
    BinaryOperator, Expression, ExpressionModel, PlacedExpression, PlacedStatement, Program,
    Statement, StatementModel,
};
use crate::text::{parse_integer, signed_integer};
use vstd::prelude::*;
use vstd::string::StringExecFns;

verus! {

/// The rules of the Amarok grammar.
#[derive(Debug, Clone, Copy, PartialEq, Eq, Structural)]
pub enum Rule {
    EndOfInput,
    Program,
    AssignmentStatement,
    ExpressionStatement,
    BlockStatement,
    IfStatement,
    ElseClause,
    WhileStatement,
    FunctionDefinition,
    ParameterList,
    ReturnStatement,
    Expression,
    Addition,
    Multiplication,
    AddOperator,
    MultiplyOperator,
    Primary,
    Parenthesized,
    FunctionCall,
    ArgumentList,
    Variable,
    Integer,
    String,
    Identifier,
}

/// The name of a rule, as the grammar spells it.
pub open spec fn rule_name(rule: Rule) -> Seq<char> {
    match rule {
        Rule::EndOfInput => "EOI"@,
        Rule::Program => "program"@,
        Rule::AssignmentStatement => "assignment_statement"@,
        Rule::ExpressionStatement => "expression_statement"@,
        Rule::BlockStatement => "block_statement"@,
        Rule::IfStatement => "if_statement"@,
        Rule::ElseClause => "else_clause"@,
        Rule::WhileStatement => "while_statement"@,
        Rule::FunctionDefinition => "function_definition"@,
        Rule::ParameterList => "parameter_list"@,
        Rule::ReturnStatement => "return_statement"@,
        Rule::Expression => "expression"@,
        Rule::Addition => "addition"@,
        Rule::Multiplication => "multiplication"@,
        Rule::AddOperator => "add_operator"@,
        Rule::MultiplyOperator => "multiply_operator"@,
        Rule::Primary => "primary"@,
        Rule::Parenthesized => "parenthesized"@,
        Rule::FunctionCall => "function_call"@,
        Rule::ArgumentList => "argument_list"@,
        Rule::Variable => "variable"@,
        Rule::Integer => "integer"@,
        Rule::String => "string"@,
        Rule::Identifier => "identifier"@,
    }
}

impl Rule {
    /// The name of the rule, as the grammar spells it.
    pub fn name(&self) -> (name: &'static str)
        ensures
            name@ == rule_name(*self),
    {
        match self {
            Rule::EndOfInput => "EOI",
            Rule::Program => "program",
            Rule::AssignmentStatement => "assignment_statement",
            Rule::ExpressionStatement => "expression_statement",
            Rule::BlockStatement => "block_statement",
            Rule::IfStatement => "if_statement",
            Rule::ElseClause => "else_clause",
            Rule::WhileStatement => "while_statement",
            Rule::FunctionDefinition => "function_definition",
            Rule::ParameterList => "parameter_list",
            Rule::ReturnStatement => "return_statement",
            Rule::Expression => "expression",
            Rule::Addition => "addition",
            Rule::Multiplication => "multiplication",
            Rule::AddOperator => "add_operator",
            Rule::MultiplyOperator => "multiply_operator",
            Rule::Primary => "primary",
            Rule::Parenthesized => "parenthesized",
            Rule::FunctionCall => "function_call",
            Rule::ArgumentList => "argument_list",
            Rule::Variable => "variable",
            Rule::Integer => "integer",
            Rule::String => "string",
            Rule::Identifier => "identifier",
        }
    }
}

/// A match of a rule of the grammar: the rule, the text matched, its place
/// in the source, and the matches inside it, in order.
#[derive(Debug, PartialEq, Eq)]
pub struct Pair {
    pub rule: Rule,
    pub text: String,
    pub span: Span,
    pub inner: Vec<Pair>,
}

/// The mathematical value of a [`Pair`].
pub ghost struct PairModel {
    pub rule: Rule,
    pub text: Seq<char>,
    pub span: Span,
    pub inner: Seq<PairModel>,
}

/// The model of a pair.
pub open spec fn pair_model(pair: Pair) -> PairModel
    decreases pair,
{
    PairModel {
        rule: pair.rule,
        text: pair.text@,
        span: pair.span,
        inner: Seq::new(
            pair.inner@.len(),
            |i: int|
                if 0 <= i < pair.inner@.len() {
                    pair_model(pair.inner@[i])
                } else {
                    arbitrary()
                },
        ),
    }
}

impl View for Pair {
    type V = PairModel;

    open spec fn view(&self) -> PairModel {
        pair_model(*self)
    }
}

/// The rules that are statements.
pub open spec fn is_statement_rule(rule: Rule) -> bool {
    rule == Rule::AssignmentStatement || rule == Rule::ReturnStatement || rule == Rule::IfStatement
        || rule == Rule::WhileStatement || rule == Rule::FunctionDefinition || rule
        == Rule::BlockStatement || rule == Rule::ExpressionStatement
}

/// The index of the first pair of `rule` at or after `from`; the number of
/// pairs where there is none.
pub open spec fn first_of(pairs: Seq<PairModel>, rule: Rule, from: int) -> int
    decreases pairs.len() - from,
{
    if 0 <= from < pairs.len() && pairs[from].rule != rule {
        first_of(pairs, rule, from + 1)
    } else {
        from
    }
}

/// `context`, then `detail`.
pub open spec fn told(context: Seq<char>, detail: Seq<char>) -> Seq<char> {
    context + detail
}

/// The texts of the identifiers among the pairs from `from` on.
pub open spec fn identifiers_of(pairs: Seq<PairModel>, from: int) -> Seq<Seq<char>>
    decreases pairs.len() - from,
{
    if 0 <= from < pairs.len() {
        if pairs[from].rule == Rule::Identifier {
            seq![pairs[from].text] + identifiers_of(pairs, from + 1)
        } else {
            identifiers_of(pairs, from + 1)
        }
    } else {
        Seq::empty()
    }
}

/// The expression that a pair stands for, or the message of the error.
pub open spec fn expression_of(pair: PairModel) -> Result<PlacedExpression, Seq<char>>
    decreases pair, pair.inner.len() + 1,
{
    match pair.rule {
        Rule::Expression => only_expression_of(pair, "expression"@),
        Rule::Primary => only_expression_of(pair, "primary"@),
        Rule::Addition => chain_of(pair, true),
        Rule::Multiplication => chain_of(pair, false),
        Rule::Parenthesized => {
            let at = first_of(pair.inner, Rule::Expression, 0);
            if 0 <= at < pair.inner.len() {
                expression_of(pair.inner[at])
            } else {
                Err("Parenthesized expression missing inner expression."@)
            }
        },
        Rule::FunctionCall => {
            if pair.inner.len() == 0 {
                Err("Function call missing name."@)
            } else if pair.inner[0].rule != Rule::Identifier {
                Err(told("Function call expected identifier, got "@, rule_name(pair.inner[0].rule)))
            } else {
                match call_arguments_of(pair, 1, Seq::empty()) {
                    Err(message) => Err(message),
                    Ok(arguments) => Ok(
                        PlacedExpression {
                            span: pair.span,
                            value: ExpressionModel::Call { name: pair.inner[0].text, arguments },
                        },
                    ),
                }
            }
        },
        Rule::Variable => {
            if pair.inner.len() == 0 {
                Err(told("variable"@, " had no inner content."@))
            } else if pair.inner.len() > 1 {
                Err(told("variable"@, " had more than one inner element."@))
            } else if pair.inner[0].rule != Rule::Identifier {
                Err(told("Expected identifier inside variable, got "@, rule_name(pair.inner[0].rule)))
            } else {
                Ok(
                    PlacedExpression {
                        span: pair.span,
                        value: ExpressionModel::Variable(pair.inner[0].text),
                    },
                )
            }
        },
        Rule::Integer => match signed_integer(pair.text) {
            Some(value) => Ok(
                PlacedExpression { span: pair.span, value: ExpressionModel::Integer(value) },
            ),
            None => Err(told("Invalid integer literal: "@, pair.text)),
        },
        Rule::String => match unquoted(pair.text) {
            Ok(text) => Ok(PlacedExpression { span: pair.span, value: ExpressionModel::Text(text) }),
            Err(message) => Err(message),
        },
        Rule::Identifier => Ok(
            PlacedExpression { span: pair.span, value: ExpressionModel::Variable(pair.text) },
        ),
        _ => Err(told("Unhandled rule in build_expression: "@, rule_name(pair.rule))),
    }
}

/// The expression of the one pair inside a pair; `context` names the pair
/// in the message where there is none, or more than one.
pub open spec fn only_expression_of(pair: PairModel, context: Seq<char>) -> Result<
    PlacedExpression,
    Seq<char>,
>
    decreases pair, pair.inner.len(),
{
    if pair.inner.len() == 0 {
        Err(told(context, " had no inner content."@))
    } else if pair.inner.len() > 1 {
        Err(told(context, " had more than one inner element."@))
    } else {
        expression_of(pair.inner[0])
    }
}

/// The operator that a text spells at one of the two levels.
pub open spec fn operator_at(additive: bool, text: Seq<char>) -> Result<BinaryOperator, Seq<char>> {
    if additive {
        add_operator(text)
    } else {
        multiply_operator(text)
    }
}

/// The rule of the operators of one of the two levels.
pub open spec fn operator_rule(additive: bool) -> Rule {
    if additive {
        Rule::AddOperator
    } else {
        Rule::MultiplyOperator
    }
}

/// The expression of a chain of operands with operators between them,
/// grouping to the left. Every operation of the chain has the span of the
/// whole chain.
pub open spec fn chain_of(pair: PairModel, additive: bool) -> Result<PlacedExpression, Seq<char>>
    decreases pair, pair.inner.len(),
{
    if pair.inner.len() == 0 {
        Err("Expected left operand, found nothing."@)
    } else {
        match expression_of(pair.inner[0]) {
            Err(message) => Err(message),
            Ok(first) => chain_rest_of(pair, additive, 1, first),
        }
    }
}

/// The rest of a chain whose operands before `from` make up `left`.
pub open spec fn chain_rest_of(pair: PairModel, additive: bool, from: int, left: PlacedExpression) -> Result<
    PlacedExpression,
    Seq<char>,
>
    decreases pair, pair.inner.len() - from,
{
    if !(1 <= from < pair.inner.len()) {
        Ok(left)
    } else if pair.inner[from].rule != operator_rule(additive) {
        Err(
            told(
                told("Expected operator rule "@, rule_name(operator_rule(additive))),
                told(", got "@, rule_name(pair.inner[from].rule)),
            ),
        )
    } else {
        match operator_at(additive, pair.inner[from].text) {
            Err(message) => Err(message),
            Ok(operator) => if from + 1 >= pair.inner.len() {
                Err("Expected right operand after operator."@)
            } else {
                match expression_of(pair.inner[from + 1]) {
                    Err(message) => Err(message),
                    Ok(right) => chain_rest_of(
                        pair,
                        additive,
                        from + 2,
                        PlacedExpression {
                            span: pair.span,
                            value: ExpressionModel::Binary {
                                left: Box::new(left),
                                operator,
                                right: Box::new(right),
                            },
                        },
                    ),
                }
            },
        }
    }
}

/// The arguments of a call: those of the last argument list among the
/// pairs from `from` on, and `current` where there is none.
pub open spec fn call_arguments_of(pair: PairModel, from: int, current: Seq<PlacedExpression>) -> Result<
    Seq<PlacedExpression>,
    Seq<char>,
>
    decreases pair, pair.inner.len() - from,
{
    if !(0 <= from < pair.inner.len()) {
        Ok(current)
    } else if pair.inner[from].rule == Rule::ArgumentList {
        match arguments_of(pair.inner[from], 0) {
            Err(message) => Err(message),
            Ok(arguments) => call_arguments_of(pair, from + 1, arguments),
        }
    } else {
        call_arguments_of(pair, from + 1, current)
    }
}

/// The expressions among the pairs of an argument list, from `from` on.
pub open spec fn arguments_of(list: PairModel, from: int) -> Result<Seq<PlacedExpression>, Seq<char>>
    decreases list, list.inner.len() - from,
{
    if !(0 <= from < list.inner.len()) {
        Ok(Seq::empty())
    } else if list.inner[from].rule == Rule::Expression {
        match expression_of(list.inner[from]) {
            Err(message) => Err(message),
            Ok(first) => match arguments_of(list, from + 1) {
                Err(message) => Err(message),
                Ok(rest) => Ok(seq![first] + rest),
            },
        }
    } else {
        arguments_of(list, from + 1)
    }
}

/// The statement that a pair stands for, or the message of the error.
pub open spec fn statement_of(pair: PairModel) -> Result<PlacedStatement, Seq<char>>
    decreases pair, pair.inner.len() + 2,
{
    match statement_value_of(pair) {
        Ok(value) => Ok(PlacedStatement { span: pair.span, value }),
        Err(message) => Err(message),
    }
}

/// The statement that a pair stands for, without its place.
pub open spec fn statement_value_of(pair: PairModel) -> Result<StatementModel, Seq<char>>
    decreases pair, pair.inner.len() + 1,
{
    match pair.rule {
        Rule::AssignmentStatement => {
            if pair.inner.len() == 0 {
                Err("Assignment missing identifier."@)
            } else if pair.inner[0].rule != Rule::Identifier {
                Err(told("Assignment expected identifier, got "@, rule_name(pair.inner[0].rule)))
            } else {
                let at = first_of(pair.inner, Rule::Expression, 1);
                if 1 <= at < pair.inner.len() {
                    match expression_of(pair.inner[at]) {
                        Err(message) => Err(message),
                        Ok(value) => Ok(
                            StatementModel::Assignment { name: pair.inner[0].text, value },
                        ),
                    }
                } else {
                    Err("Assignment missing expression."@)
                }
            }
        },
        Rule::ExpressionStatement => {
            let at = first_of(pair.inner, Rule::Expression, 0);
            if 0 <= at < pair.inner.len() {
                match expression_of(pair.inner[at]) {
                    Err(message) => Err(message),
                    Ok(expression) => Ok(StatementModel::Evaluate { expression }),
                }
            } else {
                Err("Expression statement missing expression."@)
            }
        },
        Rule::BlockStatement => match statements_of(pair, 0) {
            Err(message) => Err(message),
            Ok(statements) => Ok(StatementModel::Block { statements }),
        },
        Rule::IfStatement => {
            let test = first_of(pair.inner, Rule::Expression, 0);
            if 0 <= test < pair.inner.len() {
                match expression_of(pair.inner[test]) {
                    Err(message) => Err(message),
                    Ok(condition) => {
                        let then = first_of(pair.inner, Rule::BlockStatement, test + 1);
                        if 0 <= then < pair.inner.len() {
                            match statements_of(pair.inner[then], 0) {
                                Err(message) => Err(message),
                                Ok(then_branch) => match else_branch_of(
                                    pair,
                                    then + 1,
                                    Seq::empty(),
                                ) {
                                    Err(message) => Err(message),
                                    Ok(else_branch) => Ok(
                                        StatementModel::If { condition, then_branch, else_branch },
                                    ),
                                },
                            }
                        } else {
                            Err("If statement missing then block."@)
                        }
                    },
                }
            } else {
                Err("If statement missing condition expression."@)
            }
        },
        Rule::WhileStatement => {
            let test = first_of(pair.inner, Rule::Expression, 0);
            if 0 <= test < pair.inner.len() {
                match expression_of(pair.inner[test]) {
                    Err(message) => Err(message),
                    Ok(condition) => {
                        let block = first_of(pair.inner, Rule::BlockStatement, test + 1);
                        if 0 <= block < pair.inner.len() {
                            match statements_of(pair.inner[block], 0) {
                                Err(message) => Err(message),
                                Ok(body) => Ok(StatementModel::While { condition, body }),
                            }
                        } else {
                            Err("While statement missing body block."@)
                        }
                    },
                }
            } else {
                Err("While statement missing condition expression."@)
            }
        },
        Rule::FunctionDefinition => {
            let at = first_of(pair.inner, Rule::Identifier, 0);
            if 0 <= at < pair.inner.len() {
                definition_of(pair, pair.inner[at].text, at + 1, Seq::empty(), Seq::empty())
            } else {
                Err("Function definition missing name."@)
            }
        },
        Rule::ReturnStatement => {
            let at = first_of(pair.inner, Rule::Expression, 0);
            if 0 <= at < pair.inner.len() {
                match expression_of(pair.inner[at]) {
                    Err(message) => Err(message),
                    Ok(expression) => Ok(StatementModel::Return { result: Some(expression) }),
                }
            } else {
                Ok(StatementModel::Return { result: None })
            }
        },
        _ => Err(told("Unhandled statement rule: "@, rule_name(pair.rule))),
    }
}

/// The statements of the pairs inside a pair, from `from` on.
pub open spec fn statements_of(pair: PairModel, from: int) -> Result<Seq<PlacedStatement>, Seq<char>>
    decreases pair, pair.inner.len() - from,
{
    if !(0 <= from < pair.inner.len()) {
        Ok(Seq::empty())
    } else {
        match statement_of(pair.inner[from]) {
            Err(message) => Err(message),
            Ok(first) => match statements_of(pair, from + 1) {
                Err(message) => Err(message),
                Ok(rest) => Ok(seq![first] + rest),
            },
        }
    }
}

/// The branch of the last else clause among the pairs from `from` on, and
/// `current` where there is none.
pub open spec fn else_branch_of(pair: PairModel, from: int, current: Seq<PlacedStatement>) -> Result<
    Seq<PlacedStatement>,
    Seq<char>,
>
    decreases pair, pair.inner.len() - from,
{
    if !(0 <= from < pair.inner.len()) {
        Ok(current)
    } else if pair.inner[from].rule == Rule::ElseClause {
        match else_clause_of(pair.inner[from]) {
            Err(message) => Err(message),
            Ok(branch) => else_branch_of(pair, from + 1, branch),
        }
    } else {
        else_branch_of(pair, from + 1, current)
    }
}

/// The statements of the block of an else clause.
pub open spec fn else_clause_of(clause: PairModel) -> Result<Seq<PlacedStatement>, Seq<char>>
    decreases clause, clause.inner.len(),
{
    let block = first_of(clause.inner, Rule::BlockStatement, 0);
    if 0 <= block < clause.inner.len() {
        statements_of(clause.inner[block], 0)
    } else {
        Err("Else clause missing block."@)
    }
}

/// The definition of the function `name`, with the parameters of the last
/// parameter list and the body of the last block among the pairs from
/// `from` on.
pub open spec fn definition_of(
    pair: PairModel,
    name: Seq<char>,
    from: int,
    parameters: Seq<Seq<char>>,
    body: Seq<PlacedStatement>,
) -> Result<StatementModel, Seq<char>>
    decreases pair, pair.inner.len() - from,
{
    if !(0 <= from < pair.inner.len()) {
        Ok(StatementModel::FunctionDefinition { name, parameters, body })
    } else if pair.inner[from].rule == Rule::ParameterList {
        definition_of(pair, name, from + 1, identifiers_of(pair.inner[from].inner, 0), body)
    } else if pair.inner[from].rule == Rule::BlockStatement {
        match statements_of(pair.inner[from], 0) {
            Err(message) => Err(message),
            Ok(statements) => definition_of(pair, name, from + 1, parameters, statements),
        }
    } else {
        definition_of(pair, name, from + 1, parameters, body)
    }
}

/// The statements among the pairs of a program, from `from` on. Pairs that
/// are no statements, such as the end of the input, are passed over.
pub open spec fn program_statements_of(pair: PairModel, from: int) -> Result<
    Seq<PlacedStatement>,
    Seq<char>,
>
    decreases pair, pair.inner.len() - from,
{
    if !(0 <= from < pair.inner.len()) {
        Ok(Seq::empty())
    } else if is_statement_rule(pair.inner[from].rule) {
        match statement_of(pair.inner[from]) {
            Err(message) => Err(message),
            Ok(first) => match program_statements_of(pair, from + 1) {
                Err(message) => Err(message),
                Ok(rest) => Ok(seq![first] + rest),
            },
        }
    } else {
        program_statements_of(pair, from + 1)
    }
}

/// The program that a pair stands for, or the message of the error.
pub open spec fn program_of(pair: PairModel) -> Result<Seq<PlacedStatement>, Seq<char>> {
    if pair.rule != Rule::Program {
        Err(told("Expected program rule, got "@, rule_name(pair.rule)))
    } else {
        program_statements_of(pair, 0)
    }
}


/// The models of a list of pairs, one for one.
pub open spec fn pair_models(pairs: Seq<Pair>) -> Seq<PairModel> {
    Seq::new(pairs.len(), |i: int| pair_model(pairs[i]))
}

/// The model of a statement without its place.
pub open spec fn statement_value_model(statement: Statement) -> StatementModel {
    statement_model(Spanned { span: Span { start: 0, end: 0 }, value: statement }).value
}

/// Whether an executable result is the one that the rules give.
pub open spec fn expression_agrees(
    result: Result<Spanned<Expression>, String>,
    outcome: Result<PlacedExpression, Seq<char>>,
) -> bool {
    match outcome {
        Ok(model) => result matches Ok(expression) && expression_model(expression) == model,
        Err(message) => result matches Err(text) && text@ == message,
    }
}

/// Whether an executable result is the one that the rules give.
pub open spec fn expressions_agree(
    result: Result<Vec<Spanned<Expression>>, String>,
    outcome: Result<Seq<PlacedExpression>, Seq<char>>,
) -> bool {
    match outcome {
        Ok(models) => result matches Ok(expressions) && expression_models(expressions@) == models,
        Err(message) => result matches Err(text) && text@ == message,
    }
}

/// Whether an executable result is the one that the rules give.
pub open spec fn statement_agrees(
    result: Result<Spanned<Statement>, String>,
    outcome: Result<PlacedStatement, Seq<char>>,
) -> bool {
    match outcome {
        Ok(model) => result matches Ok(statement) && statement_model(statement) == model,
        Err(message) => result matches Err(text) && text@ == message,
    }
}

/// Whether an executable result is the one that the rules give.
pub open spec fn value_agrees(
    result: Result<Statement, String>,
    outcome: Result<StatementModel, Seq<char>>,
) -> bool {
    match outcome {
        Ok(model) => result matches Ok(statement) && statement_value_model(statement) == model,
        Err(message) => result matches Err(text) && text@ == message,
    }
}

/// Whether an executable result is the one that the rules give.
pub open spec fn statements_agree(
    result: Result<Vec<Spanned<Statement>>, String>,
    outcome: Result<Seq<PlacedStatement>, Seq<char>>,
) -> bool {
    match outcome {
        Ok(models) => result matches Ok(statements) && statement_models(statements@) == models,
        Err(message) => result matches Err(text) && text@ == message,
    }
}

/// Whether an executable result is the one that the rules give.
pub open spec fn program_agrees(
    result: Result<Program, String>,
    outcome: Result<Seq<PlacedStatement>, Seq<char>>,
) -> bool {
    match outcome {
        Ok(models) => result matches Ok(program) && program@ == models,
        Err(message) => result matches Err(text) && text@ == message,
    }
}

/// `found` in front of what the rest yields.
pub open spec fn preceded<T>(found: Seq<T>, rest: Result<Seq<T>, Seq<char>>) -> Result<
    Seq<T>,
    Seq<char>,
> {
    match rest {
        Ok(more) => Ok(found + more),
        Err(message) => Err(message),
    }
}

/// The pairs inside a pair are the models of the pairs that it holds.
proof fn lemma_inner(pair: Pair)
    ensures
        pair@.inner == pair_models(pair.inner@),
        pair@.rule == pair.rule,
        pair@.text == pair.text@,
        pair@.span == pair.span,
{
    assert(pair@.inner =~= pair_models(pair.inner@));
}

/// `context`, then `detail`.
fn tell(context: &str, detail: &str) -> (message: String)
    ensures
        message@ == told(context@, detail@),
{
    let mut message = String::from_str(context);
    message.append(detail);
    message
}

/// The index of the first pair of `rule` at or after `from`.
fn find_rule(pairs: &Vec<Pair>, rule: Rule, from: usize) -> (at: usize)
    requires
        from <= pairs.len(),
    ensures
        at == first_of(pair_models(pairs@), rule, from as int),
        from <= at <= pairs.len(),
        at < pairs.len() ==> pairs@[at as int].rule == rule,
{
    let mut index: usize = from;
    while index < pairs.len()
        invariant
            from <= index <= pairs.len(),
            first_of(pair_models(pairs@), rule, index as int) == first_of(
                pair_models(pairs@),
                rule,
                from as int,
            ),
        decreases pairs.len() - index,
    {
        proof {
            lemma_inner(pairs@[index as int]);
        }
        if pairs[index].rule == rule {
            return index;
        }
        index += 1;
    }
    index
}

/// The place of a pair in the source.
fn span_of(pair: &Pair) -> (span: Span)
    ensures
        span == pair.span,
{
    Span::new(pair.span.start, pair.span.end)
}

/// The one pair inside a pair; `context` names the pair in the message
/// where there is none, or more than one.
fn expect_single_inner<'a>(pair: &'a Pair, context: &str) -> (result: Result<&'a Pair, String>)
    ensures
        match result {
            Ok(only) => pair.inner@.len() == 1 && *only == pair.inner@[0],
            Err(message) => if pair.inner@.len() == 0 {
                message@ == told(context@, " had no inner content."@)
            } else {
                pair.inner@.len() > 1 && message@ == told(
                    context@,
                    " had more than one inner element."@,
                )
            },
        },
{
    if pair.inner.len() == 0 {
        return Err(tell(context, " had no inner content."));
    }
    if pair.inner.len() > 1 {
        return Err(tell(context, " had more than one inner element."));
    }
    Ok(&pair.inner[0])
}

/// The texts of the identifiers among `pairs`.
fn collect_identifiers(pairs: &Vec<Pair>) -> (names: Vec<String>)
    ensures
        name_texts(names@) == identifiers_of(pair_models(pairs@), 0),
{
    let ghost models = pair_models(pairs@);
    let mut names: Vec<String> = Vec::new();
    let mut index: usize = 0;
    assert(name_texts(names@) =~= Seq::<Seq<char>>::empty());
    assert(Seq::<Seq<char>>::empty() + identifiers_of(models, 0) =~= identifiers_of(models, 0));
    while index < pairs.len()
        invariant
            index <= pairs.len(),
            models == pair_models(pairs@),
            identifiers_of(models, 0) == name_texts(names@) + identifiers_of(models, index as int),
        decreases pairs.len() - index,
    {
        let ghost before = name_texts(names@);
        proof {
            lemma_inner(pairs@[index as int]);
        }
        if pairs[index].rule == Rule::Identifier {
            names.push(pairs[index].text.clone());
            proof {
                assert(name_texts(names@) =~= before.push(pairs@[index as int].text@));
                assert(before + (seq![pairs@[index as int].text@] + identifiers_of(
                    models,
                    index as int + 1,
                )) =~= before.push(pairs@[index as int].text@) + identifiers_of(
                    models,
                    index as int + 1,
                ));
            }
        }
        index += 1;
    }
    assert(name_texts(names@) + Seq::<Seq<char>>::empty() =~= name_texts(names@));
    names
}

/// The program that a pair stands for.
#[verifier::loop_isolation(false)]
pub fn build_program(pair: &Pair) -> (result: Result<Program, String>)
    ensures
        program_agrees(result, program_of(pair@)),
{
    proof {
        lemma_inner(*pair);
    }
    if pair.rule != Rule::Program {
        return Err(tell("Expected program rule, got ", pair.rule.name()));
    }
    let ghost model = pair@;
    let mut statements: Vec<Spanned<Statement>> = Vec::new();
    let mut index: usize = 0;
    assert(statement_models(statements@) =~= Seq::<PlacedStatement>::empty());
    assert(preceded(Seq::<PlacedStatement>::empty(), program_statements_of(model, 0))
        == program_statements_of(model, 0)) by {
        if let Ok(all) = program_statements_of(model, 0) {
            assert(Seq::<PlacedStatement>::empty() + all =~= all);
        }
    }
    while index < pair.inner.len()
        invariant
            index <= pair.inner.len(),
            program_statements_of(model, 0) == preceded(
                statement_models(statements@),
                program_statements_of(model, index as int),
            ),
        decreases pair.inner.len() - index,
    {
        let ghost before = statement_models(statements@);
        let item = &pair.inner[index];
        proof {
            lemma_inner(*item);
        }
        match item.rule {
            Rule::AssignmentStatement
            | Rule::ReturnStatement
            | Rule::IfStatement
            | Rule::WhileStatement
            | Rule::FunctionDefinition
            | Rule::BlockStatement
            | Rule::ExpressionStatement => {
                let statement = match build_statement(item) {
                    Ok(statement) => statement,
                    Err(message) => {
                        return Err(message);
                    },
                };
                statements.push(statement);
                proof {
                    let first = statement_of(model.inner[index as int])->Ok_0;
                    assert(statement_models(statements@) =~= before.push(first));
                    if let Ok(rest) = program_statements_of(model, index as int + 1) {
                        assert(before + (seq![first] + rest) =~= before.push(first) + rest);
                    }
                }
            },
            _ => {},
        }
        index += 1;
    }
    proof {
        assert(statement_models(statements@) + Seq::<PlacedStatement>::empty()
            =~= statement_models(statements@));
    }
    Ok(Program { statements })
}

/// The statement that a pair stands for.
pub fn build_statement(pair: &Pair) -> (result: Result<Spanned<Statement>, String>)
    ensures
        statement_agrees(result, statement_of(pair@)),
    decreases pair, 2nat,
{
    proof {
        lemma_inner(*pair);
    }
    let statement_span = span_of(pair);
    let built = match pair.rule {
        Rule::AssignmentStatement => build_assignment_statement(pair),
        Rule::ExpressionStatement => build_expression_statement(pair),
        Rule::BlockStatement => build_block_statement(pair),
        Rule::IfStatement => build_if_statement(pair),
        Rule::WhileStatement => build_while_statement(pair),
        Rule::FunctionDefinition => build_function_definition(pair),
        Rule::ReturnStatement => build_return_statement(pair),
        _ => Err(tell("Unhandled statement rule: ", pair.rule.name())),
    };
    match built {
        Ok(value) => {
            let statement = Spanned::new(statement_span, value);
            proof {
                lemma_placed(statement_span, value);
            }
            Ok(statement)
        },
        Err(message) => Err(message),
    }
}

/// The model of a statement does not depend on its place, but for the
/// place itself.
proof fn lemma_placed(span: Span, value: Statement)
    ensures
        statement_model(Spanned { span, value }) == (PlacedStatement {
            span,
            value: statement_value_model(value),
        }),
{
}

fn build_assignment_statement(pair: &Pair) -> (result: Result<Statement, String>)
    requires
        pair.rule == Rule::AssignmentStatement,
    ensures
        value_agrees(result, statement_value_of(pair@)),
    decreases pair, 1nat,
{
    proof {
        lemma_inner(*pair);
    }
    if pair.inner.len() == 0 {
        return Err(String::from_str("Assignment missing identifier."));
    }
    let name_pair = &pair.inner[0];
    proof {
        lemma_inner(*name_pair);
    }
    if name_pair.rule != Rule::Identifier {
        return Err(tell("Assignment expected identifier, got ", name_pair.rule.name()));
    }
    let name = name_pair.text.clone();
    let at = find_rule(&pair.inner, Rule::Expression, 1);
    if at >= pair.inner.len() {
        return Err(String::from_str("Assignment missing expression."));
    }
    let value = match build_expression(&pair.inner[at]) {
        Ok(value) => value,
        Err(message) => {
            return Err(message);
        },
    };
    Ok(Statement::Assignment { name, value })
}

fn build_expression_statement(pair: &Pair) -> (result: Result<Statement, String>)
    requires
        pair.rule == Rule::ExpressionStatement,
    ensures
        value_agrees(result, statement_value_of(pair@)),
    decreases pair, 1nat,
{
    proof {
        lemma_inner(*pair);
    }
    let at = find_rule(&pair.inner, Rule::Expression, 0);
    if at >= pair.inner.len() {
        return Err(String::from_str("Expression statement missing expression."));
    }
    match build_expression(&pair.inner[at]) {
        Ok(expression) => Ok(Statement::Expression { expression }),
        Err(message) => Err(message),
    }
}

fn build_block_statement(pair: &Pair) -> (result: Result<Statement, String>)
    requires
        pair.rule == Rule::BlockStatement,
    ensures
        value_agrees(result, statement_value_of(pair@)),
    decreases pair, 1nat,
{
    match extract_block_statements(pair) {
        Ok(statements) => {
            let block = Statement::Block { statements };
            proof {
                assert(statement_value_model(block)->Block_statements =~= statement_models(
                    statements@,
                ));
            }
            Ok(block)
        },
        Err(message) => Err(message),
    }
}

#[verifier::loop_isolation(false)]
fn build_if_statement(pair: &Pair) -> (result: Result<Statement, String>)
    requires
        pair.rule == Rule::IfStatement,
    ensures
        value_agrees(result, statement_value_of(pair@)),
    decreases pair, 1nat,
{
    proof {
        lemma_inner(*pair);
    }
    let ghost model = pair@;
    let test = find_rule(&pair.inner, Rule::Expression, 0);
    if test >= pair.inner.len() {
        return Err(String::from_str("If statement missing condition expression."));
    }
    let condition = match build_expression(&pair.inner[test]) {
        Ok(condition) => condition,
        Err(message) => {
            return Err(message);
        },
    };
    let then = find_rule(&pair.inner, Rule::BlockStatement, test + 1);
    if then >= pair.inner.len() {
        return Err(String::from_str("If statement missing then block."));
    }
    let then_branch = match extract_block_statements(&pair.inner[then]) {
        Ok(statements) => statements,
        Err(message) => {
            return Err(message);
        },
    };
    let mut else_branch: Vec<Spanned<Statement>> = Vec::new();
    let mut index: usize = then + 1;
    assert(statement_models(else_branch@) =~= Seq::<PlacedStatement>::empty());
    while index < pair.inner.len()
        invariant
            then < index <= pair.inner.len(),
            else_branch_of(model, then + 1, Seq::empty()) == else_branch_of(
                model,
                index as int,
                statement_models(else_branch@),
            ),
        decreases pair.inner.len() - index,
    {
        let item = &pair.inner[index];
        proof {
            lemma_inner(*item);
        }
        if item.rule == Rule::ElseClause {
            else_branch = match extract_else_clause(item) {
                Ok(statements) => statements,
                Err(message) => {
                    return Err(message);
                },
            };
        }
        index += 1;
    }
    let built = Statement::If { condition, then_branch, else_branch };
    proof {
        assert(statement_value_model(built)->then_branch =~= statement_models(then_branch@));
        assert(statement_value_model(built)->else_branch =~= statement_models(else_branch@));
    }
    Ok(built)
}

fn extract_else_clause(pair: &Pair) -> (result: Result<Vec<Spanned<Statement>>, String>)
    ensures
        statements_agree(result, else_clause_of(pair@)),
    decreases pair, 1nat,
{
    proof {
        lemma_inner(*pair);
    }
    let block = find_rule(&pair.inner, Rule::BlockStatement, 0);
    if block >= pair.inner.len() {
        return Err(String::from_str("Else clause missing block."));
    }
    extract_block_statements(&pair.inner[block])
}

#[verifier::loop_isolation(false)]
fn extract_block_statements(block_pair: &Pair) -> (result: Result<Vec<Spanned<Statement>>, String>)
    ensures
        statements_agree(result, statements_of(block_pair@, 0)),
    decreases block_pair, 0nat,
{
    proof {
        lemma_inner(*block_pair);
    }
    let ghost model = block_pair@;
    let mut statements: Vec<Spanned<Statement>> = Vec::new();
    let mut index: usize = 0;
    assert(statement_models(statements@) =~= Seq::<PlacedStatement>::empty());
    assert(preceded(Seq::<PlacedStatement>::empty(), statements_of(model, 0)) == statements_of(
        model,
        0,
    )) by {
        if let Ok(all) = statements_of(model, 0) {
            assert(Seq::<PlacedStatement>::empty() + all =~= all);
        }
    }
    while index < block_pair.inner.len()
        invariant
            index <= block_pair.inner.len(),
            statements_of(model, 0) == preceded(
                statement_models(statements@),
                statements_of(model, index as int),
            ),
        decreases block_pair.inner.len() - index,
    {
        let ghost before = statement_models(statements@);
        let statement = match build_statement(&block_pair.inner[index]) {
            Ok(statement) => statement,
            Err(message) => {
                return Err(message);
            },
        };
        statements.push(statement);
        proof {
            let first = statement_of(model.inner[index as int])->Ok_0;
            assert(statement_models(statements@) =~= before.push(first));
            if let Ok(rest) = statements_of(model, index as int + 1) {
                assert(before + (seq![first] + rest) =~= before.push(first) + rest);
            }
        }
        index += 1;
    }
    proof {
        assert(statement_models(statements@) + Seq::<PlacedStatement>::empty()
            =~= statement_models(statements@));
    }
    Ok(statements)
}

fn build_while_statement(pair: &Pair) -> (result: Result<Statement, String>)
    requires
        pair.rule == Rule::WhileStatement,
    ensures
        value_agrees(result, statement_value_of(pair@)),
    decreases pair, 1nat,
{
    proof {
        lemma_inner(*pair);
    }
    let test = find_rule(&pair.inner, Rule::Expression, 0);
    if test >= pair.inner.len() {
        return Err(String::from_str("While statement missing condition expression."));
    }
    let condition = match build_expression(&pair.inner[test]) {
        Ok(condition) => condition,
        Err(message) => {
            return Err(message);
        },
    };
    let block = find_rule(&pair.inner, Rule::BlockStatement, test + 1);
    if block >= pair.inner.len() {
        return Err(String::from_str("While statement missing body block."));
    }
    let body = match extract_block_statements(&pair.inner[block]) {
        Ok(statements) => statements,
        Err(message) => {
            return Err(message);
        },
    };
    let built = Statement::While { condition, body };
    proof {
        assert(statement_value_model(built)->While_body =~= statement_models(body@));
    }
    Ok(built)
}

#[verifier::loop_isolation(false)]
fn build_function_definition(pair: &Pair) -> (result: Result<Statement, String>)
    requires
        pair.rule == Rule::FunctionDefinition,
    ensures
        value_agrees(result, statement_value_of(pair@)),
    decreases pair, 1nat,
{
    proof {
        lemma_inner(*pair);
    }
    let ghost model = pair@;
    let at = find_rule(&pair.inner, Rule::Identifier, 0);
    if at >= pair.inner.len() {
        return Err(String::from_str("Function definition missing name."));
    }
    proof {
        lemma_inner(pair.inner@[at as int]);
    }
    let name = pair.inner[at].text.clone();
    let mut parameters: Vec<String> = Vec::new();
    let mut body: Vec<Spanned<Statement>> = Vec::new();
    let mut index: usize = at + 1;
    assert(name_texts(parameters@) =~= Seq::<Seq<char>>::empty());
    assert(statement_models(body@) =~= Seq::<PlacedStatement>::empty());
    while index < pair.inner.len()
        invariant
            at < index <= pair.inner.len(),
            definition_of(model, name@, at + 1, Seq::empty(), Seq::empty()) == definition_of(
                model,
                name@,
                index as int,
                name_texts(parameters@),
                statement_models(body@),
            ),
        decreases pair.inner.len() - index,
    {
        let item = &pair.inner[index];
        proof {
            lemma_inner(*item);
        }
        match item.rule {
            Rule::ParameterList => {
                parameters = collect_identifiers(&item.inner);
            },
            Rule::BlockStatement => {
                body = match extract_block_statements(item) {
                    Ok(statements) => statements,
                    Err(message) => {
                        return Err(message);
                    },
                };
            },
            _ => {},
        }
        index += 1;
    }
    let built = Statement::FunctionDefinition { name, parameters, body };
    proof {
        assert(statement_value_model(built)->FunctionDefinition_body =~= statement_models(body@));
    }
    Ok(built)
}

fn build_return_statement(pair: &Pair) -> (result: Result<Statement, String>)
    requires
        pair.rule == Rule::ReturnStatement,
    ensures
        value_agrees(result, statement_value_of(pair@)),
    decreases pair, 1nat,
{
    proof {
        lemma_inner(*pair);
    }
    let at = find_rule(&pair.inner, Rule::Expression, 0);
    let value = if at < pair.inner.len() {
        match build_expression(&pair.inner[at]) {
            Ok(expression) => Some(expression),
            Err(message) => {
                return Err(message);
            },
        }
    } else {
        None
    };
    Ok(Statement::Return { value })
}

/// The expression that a pair stands for.
pub fn build_expression(pair: &Pair) -> (result: Result<Spanned<Expression>, String>)
    ensures
        expression_agrees(result, expression_of(pair@)),
    decreases pair, 2nat,
{
    proof {
        lemma_inner(*pair);
    }
    let expression_span = span_of(pair);
    match pair.rule {
        Rule::Expression => match expect_single_inner(pair, "expression") {
            Ok(only) => {
                assert(pair@.inner[0] == only@);
                assert(only_expression_of(pair@, "expression"@) == expression_of(pair@.inner[0]));
                build_expression(only)
            },
            Err(message) => Err(message),
        },
        Rule::Addition => build_left_associative_binary(pair, true),
        Rule::Multiplication => build_left_associative_binary(pair, false),
        Rule::Primary => match expect_single_inner(pair, "primary") {
            Ok(only) => {
                assert(pair@.inner[0] == only@);
                assert(only_expression_of(pair@, "primary"@) == expression_of(pair@.inner[0]));
                build_expression(only)
            },
            Err(message) => Err(message),
        },
        Rule::Parenthesized => {
            let at = find_rule(&pair.inner, Rule::Expression, 0);
            if at >= pair.inner.len() {
                return Err(String::from_str("Parenthesized expression missing inner expression."));
            }
            build_expression(&pair.inner[at])
        },
        Rule::FunctionCall => build_function_call(pair),
        Rule::Variable => {
            let only = match expect_single_inner(pair, "variable") {
                Ok(only) => only,
                Err(message) => {
                    return Err(message);
                },
            };
            proof {
                lemma_inner(*only);
                assert(pair@.inner[0] == only@);
            }
            if only.rule != Rule::Identifier {
                return Err(tell("Expected identifier inside variable, got ", only.rule.name()));
            }
            Ok(Spanned::new(expression_span, Expression::Variable(only.text.clone())))
        },
        Rule::Integer => match parse_integer(pair.text.as_str()) {
            Some(value) => Ok(Spanned::new(expression_span, Expression::Integer(value))),
            None => Err(tell("Invalid integer literal: ", pair.text.as_str())),
        },
        Rule::String => match unquote_string(pair.text.as_str()) {
            Ok(text) => Ok(Spanned::new(expression_span, Expression::String(text))),
            Err(message) => Err(message),
        },
        Rule::Identifier => Ok(
            Spanned::new(expression_span, Expression::Variable(pair.text.clone())),
        ),
        _ => Err(tell("Unhandled rule in build_expression: ", pair.rule.name())),
    }
}

#[verifier::loop_isolation(false)]
fn build_function_call(pair: &Pair) -> (result: Result<Spanned<Expression>, String>)
    requires
        pair.rule == Rule::FunctionCall,
    ensures
        expression_agrees(result, expression_of(pair@)),
    decreases pair, 1nat,
{
    proof {
        lemma_inner(*pair);
    }
    let ghost model = pair@;
    let call_span = span_of(pair);
    if pair.inner.len() == 0 {
        return Err(String::from_str("Function call missing name."));
    }
    let name_pair = &pair.inner[0];
    proof {
        lemma_inner(*name_pair);
    }
    if name_pair.rule != Rule::Identifier {
        return Err(tell("Function call expected identifier, got ", name_pair.rule.name()));
    }
    let name = name_pair.text.clone();
    let mut arguments: Vec<Spanned<Expression>> = Vec::new();
    let mut index: usize = 1;
    assert(expression_models(arguments@) =~= Seq::<PlacedExpression>::empty());
    while index < pair.inner.len()
        invariant
            1 <= index <= pair.inner.len(),
            call_arguments_of(model, 1, Seq::empty()) == call_arguments_of(
                model,
                index as int,
                expression_models(arguments@),
            ),
        decreases pair.inner.len() - index,
    {
        let item = &pair.inner[index];
        proof {
            lemma_inner(*item);
        }
        if item.rule == Rule::ArgumentList {
            arguments = match build_argument_list(item) {
                Ok(arguments) => arguments,
                Err(message) => {
                    return Err(message);
                },
            };
        }
        index += 1;
    }
    let call = Spanned::new(call_span, Expression::FunctionCall { name, arguments });
    proof {
        assert(expression_model(call).value->Call_arguments =~= expression_models(arguments@));
    }
    Ok(call)
}

#[verifier::loop_isolation(false)]
fn build_argument_list(pair: &Pair) -> (result: Result<Vec<Spanned<Expression>>, String>)
    ensures
        expressions_agree(result, arguments_of(pair@, 0)),
    decreases pair, 1nat,
{
    proof {
        lemma_inner(*pair);
    }
    let ghost model = pair@;
    let mut arguments: Vec<Spanned<Expression>> = Vec::new();
    let mut index: usize = 0;
    assert(expression_models(arguments@) =~= Seq::<PlacedExpression>::empty());
    assert(preceded(Seq::<PlacedExpression>::empty(), arguments_of(model, 0)) == arguments_of(
        model,
        0,
    )) by {
        if let Ok(all) = arguments_of(model, 0) {
            assert(Seq::<PlacedExpression>::empty() + all =~= all);
        }
    }
    while index < pair.inner.len()
        invariant
            index <= pair.inner.len(),
            arguments_of(model, 0) == preceded(
                expression_models(arguments@),
                arguments_of(model, index as int),
            ),
        decreases pair.inner.len() - index,
    {
        let ghost before = expression_models(arguments@);
        let item = &pair.inner[index];
        proof {
            lemma_inner(*item);
        }
        if item.rule == Rule::Expression {
            let argument = match build_expression(item) {
                Ok(argument) => argument,
                Err(message) => {
                    return Err(message);
                },
            };
            arguments.push(argument);
            proof {
                let first = expression_of(model.inner[index as int])->Ok_0;
                assert(expression_models(arguments@) =~= before.push(first));
                if let Ok(rest) = arguments_of(model, index as int + 1) {
                    assert(before + (seq![first] + rest) =~= before.push(first) + rest);
                }
            }
        }
        index += 1;
    }
    proof {
        assert(expression_models(arguments@) + Seq::<PlacedExpression>::empty()
            =~= expression_models(arguments@));
    }
    Ok(arguments)
}

#[verifier::loop_isolation(false)]
fn build_left_associative_binary(pair: &Pair, additive: bool) -> (result: Result<
    Spanned<Expression>,
    String,
>)
    ensures
        expression_agrees(result, chain_of(pair@, additive)),
    decreases pair, 1nat,
{
    proof {
        lemma_inner(*pair);
    }
    let ghost model = pair@;
    let full_span = span_of(pair);
    if pair.inner.len() == 0 {
        return Err(String::from_str("Expected left operand, found nothing."));
    }
    let mut expression = match build_expression(&pair.inner[0]) {
        Ok(expression) => expression,
        Err(message) => {
            return Err(message);
        },
    };
    let expected = if additive {
        Rule::AddOperator
    } else {
        Rule::MultiplyOperator
    };
    let mut index: usize = 1;
    while index < pair.inner.len()
        invariant
            1 <= index <= pair.inner.len(),
            chain_of(model, additive) == chain_rest_of(
                model,
                additive,
                index as int,
                expression_model(expression),
            ),
        decreases pair.inner.len() - index,
    {
        let operator_pair = &pair.inner[index];
        proof {
            lemma_inner(*operator_pair);
        }
        if operator_pair.rule != expected {
            let mut message = String::from_str("Expected operator rule ");
            message.append(expected.name());
            message.append(", got ");
            message.append(operator_pair.rule.name());
            proof {
                assert(message@ =~= told(
                    told("Expected operator rule "@, rule_name(expected)),
                    told(", got "@, rule_name(operator_pair.rule)),
                ));
            }
            return Err(message);
        }
        let found = if additive {
            operator_from_add_text(operator_pair.text.as_str())
        } else {
            operator_from_multiply_text(operator_pair.text.as_str())
        };
        let operator = match found {
            Ok(operator) => operator,
            Err(message) => {
                return Err(message);
            },
        };
        if index + 1 >= pair.inner.len() {
            return Err(String::from_str("Expected right operand after operator."));
        }
        let right_expression = match build_expression(&pair.inner[index + 1]) {
            Ok(expression) => expression,
            Err(message) => {
                return Err(message);
            },
        };
        expression = Spanned::new(
            full_span,
            Expression::Binary {
                left: Box::new(expression),
                operator,
                right: Box::new(right_expression),
            },
        );
        index += 2;
    }
    Ok(expression)
}

} // verus!
