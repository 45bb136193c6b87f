//! The parser: recursive descent with precedence climbing for expressions.
//!
//! `sp_program` and its companions are the mathematical parser over token
//! models; the executable functions mirror them one for one and are proved
//! to return exactly what the specification says, including which error is
//! reported first. Parsing never recovers: the first mismatch is returned.

use crate::lexer::{toks_view, Token, TokenModel};
use crate::num::{render_number, spec_render_number};
use crate::text::str_concat;
use vstd::prelude::*;

verus! {

/// A syntax-tree node. Literal and identifier nodes double as runtime
/// values: the evaluator has no separate value type.
#[derive(Debug)]
pub enum ASTNode {
    Program(Vec<ASTNode>),
    PrintStatement(Box<ASTNode>),
    VariableAssignment(String, Box<ASTNode>),
    IfStatement { condition: Box<ASTNode>, then_branch: Vec<ASTNode>, else_branch: Option<Vec<ASTNode>> },
    FunctionDeclaration { name: String, parameters: Vec<String>, body: Vec<ASTNode> },
    FunctionCall { name: String, arguments: Vec<ASTNode> },
    Identifier(String),
    StringLiteral(String),
    /// A number literal, as the bit pattern of the double it denotes.
    NumberLiteral(u64),
    BinaryExpression { left: Box<ASTNode>, operator: Token, right: Box<ASTNode> },
    UnaryExpression { operator: Token, operand: Box<ASTNode> },
}

/// The mathematical shape of a syntax-tree node.
pub ghost enum NodeModel {
    Program(Seq<NodeModel>),
    PrintStatement(Box<NodeModel>),
    VariableAssignment(Seq<char>, Box<NodeModel>),
    IfStatement { condition: Box<NodeModel>, then_branch: Seq<NodeModel>, else_branch: Option<Seq<NodeModel>> },
    FunctionDeclaration { name: Seq<char>, parameters: Seq<Seq<char>>, body: Seq<NodeModel> },
    FunctionCall { name: Seq<char>, arguments: Seq<NodeModel> },
    Identifier(Seq<char>),
    StringLiteral(Seq<char>),
    NumberLiteral(u64),
    BinaryExpression { left: Box<NodeModel>, operator: TokenModel, right: Box<NodeModel> },
    UnaryExpression { operator: TokenModel, operand: Box<NodeModel> },
}

/// The model of one node.
pub open spec fn node_model(n: ASTNode) -> NodeModel
    decreases n,
{
    match n {
        ASTNode::Program(ss) => NodeModel::Program(nodes_view(ss@)),
        ASTNode::PrintStatement(e) => NodeModel::PrintStatement(Box::new(node_model(*e))),
        ASTNode::VariableAssignment(name, e) => NodeModel::VariableAssignment(
            name@,
            Box::new(node_model(*e)),
        ),
        ASTNode::IfStatement { condition, then_branch, else_branch } => NodeModel::IfStatement {
            condition: Box::new(node_model(*condition)),
            then_branch: nodes_view(then_branch@),
            else_branch: match else_branch {
                Some(ss) => Some(nodes_view(ss@)),
                None => None,
            },
        },
        ASTNode::FunctionDeclaration { name, parameters, body } => NodeModel::FunctionDeclaration {
            name: name@,
            parameters: strs_view(parameters@),
            body: nodes_view(body@),
        },
        ASTNode::FunctionCall { name, arguments } => NodeModel::FunctionCall {
            name: name@,
            arguments: nodes_view(arguments@),
        },
        ASTNode::Identifier(s) => NodeModel::Identifier(s@),
        ASTNode::StringLiteral(s) => NodeModel::StringLiteral(s@),
        ASTNode::NumberLiteral(b) => NodeModel::NumberLiteral(b),
        ASTNode::BinaryExpression { left, operator, right } => NodeModel::BinaryExpression {
            left: Box::new(node_model(*left)),
            operator: operator@,
            right: Box::new(node_model(*right)),
        },
        ASTNode::UnaryExpression { operator, operand } => NodeModel::UnaryExpression {
            operator: operator@,
            operand: Box::new(node_model(*operand)),
        },
    }
}

/// The models of a node sequence.
pub open spec fn nodes_view(s: Seq<ASTNode>) -> Seq<NodeModel>
    decreases s,
{
    Seq::new(
        s.len(),
        |k: int|
            if 0 <= k < s.len() {
                node_model(s[k])
            } else {
                arbitrary()
            },
    )
}

/// The views of a sequence of names.
pub open spec fn strs_view(s: Seq<String>) -> Seq<Seq<char>> {
    s.map_values(|x: String| x@)
}

impl View for ASTNode {
    type V = NodeModel;

    open spec fn view(&self) -> NodeModel {
        node_model(*self)
    }
}

/// A structural mismatch found while parsing; `describe_error` renders the
/// message the parser reports for it.
#[derive(Debug)]
pub enum ParseError {
    UnexpectedStatementToken,
    ExpectedFunctionName,
    UnexpectedParameterToken,
    InvalidAssignmentTarget,
    ExpectedExpression,
    /// The expected token, and the one found (`None`: end of input).
    Expected(Token, Option<Token>),
}

/// The mathematical shape of a parse error.
pub ghost enum ParseErrorModel {
    UnexpectedStatementToken,
    ExpectedFunctionName,
    UnexpectedParameterToken,
    InvalidAssignmentTarget,
    ExpectedExpression,
    Expected(TokenModel, Option<TokenModel>),
}

impl View for ParseError {
    type V = ParseErrorModel;

    open spec fn view(&self) -> ParseErrorModel {
        match self {
            ParseError::UnexpectedStatementToken => ParseErrorModel::UnexpectedStatementToken,
            ParseError::ExpectedFunctionName => ParseErrorModel::ExpectedFunctionName,
            ParseError::UnexpectedParameterToken => ParseErrorModel::UnexpectedParameterToken,
            ParseError::InvalidAssignmentTarget => ParseErrorModel::InvalidAssignmentTarget,
            ParseError::ExpectedExpression => ParseErrorModel::ExpectedExpression,
            ParseError::Expected(m, Some(f)) => ParseErrorModel::Expected(m@, Some(f@)),
            ParseError::Expected(m, None) => ParseErrorModel::Expected(m@, None),
        }
    }
}

/// The name a token is reported by in parse errors.
pub open spec fn token_text(m: TokenModel) -> Seq<char> {
    match m {
        TokenModel::Print => "Print"@,
        TokenModel::If => "If"@,
        TokenModel::Else => "Else"@,
        TokenModel::Function => "Function"@,
        TokenModel::Identifier(s) => "Identifier(\""@ + s + "\")"@,
        TokenModel::StringLiteral(s) => "StringLiteral(\""@ + s + "\")"@,
        TokenModel::NumberLiteral(b) => "NumberLiteral("@ + spec_render_number(b) + ")"@,
        TokenModel::Assign => "Assign"@,
        TokenModel::Plus => "Plus"@,
        TokenModel::Minus => "Minus"@,
        TokenModel::Star => "Star"@,
        TokenModel::Slash => "Slash"@,
        TokenModel::EqualEqual => "EqualEqual"@,
        TokenModel::NotEqual => "NotEqual"@,
        TokenModel::LessThan => "LessThan"@,
        TokenModel::GreaterThan => "GreaterThan"@,
        TokenModel::LessEqual => "LessEqual"@,
        TokenModel::GreaterEqual => "GreaterEqual"@,
        TokenModel::Bang => "Bang"@,
        TokenModel::Comma => "Comma"@,
        TokenModel::Semicolon => "Semicolon"@,
        TokenModel::LeftParen => "LeftParen"@,
        TokenModel::RightParen => "RightParen"@,
        TokenModel::LeftBrace => "LeftBrace"@,
        TokenModel::RightBrace => "RightBrace"@,
        TokenModel::EOF => "EOF"@,
    }
}

/// The message the parser reports for an error.
pub open spec fn error_message(e: ParseErrorModel) -> Seq<char> {
    match e {
        ParseErrorModel::UnexpectedStatementToken => "Unexpected token in statement."@,
        ParseErrorModel::ExpectedFunctionName => "Expected function name."@,
        ParseErrorModel::UnexpectedParameterToken => "Unexpected token in parameter list."@,
        ParseErrorModel::InvalidAssignmentTarget => "Invalid assignment target."@,
        ParseErrorModel::ExpectedExpression => "Expected an expression."@,
        ParseErrorModel::Expected(m, Some(f)) => "Expected token "@ + token_text(m) + ", found "@
            + token_text(f),
        ParseErrorModel::Expected(m, None) => "Expected token "@ + token_text(m)
            + ", found end of input"@,
    }
}

// ---------------------------------------------------------------------------
// The specification parser.
// ---------------------------------------------------------------------------

/// Consuming one expected token: the next position, or the error naming what
/// was expected and what stood there.
pub open spec fn sp_expect(t: Seq<TokenModel>, i: int, m: TokenModel) -> Result<
    int,
    ParseErrorModel,
> {
    if 0 <= i < t.len() {
        if t[i] == m {
            Ok(i + 1)
        } else {
            Err(ParseErrorModel::Expected(m, Some(t[i])))
        }
    } else {
        Err(ParseErrorModel::Expected(m, None))
    }
}

/// One primary expression: a literal, an identifier or call, or a
/// parenthesized expression.
pub open spec fn sp_primary(t: Seq<TokenModel>, i: int) -> Result<
    (NodeModel, int),
    ParseErrorModel,
>
    decreases t.len() - i, 2int,
{
    if !(0 <= i < t.len()) {
        Err(ParseErrorModel::ExpectedExpression)
    } else {
        match t[i] {
            TokenModel::NumberLiteral(b) => Ok((NodeModel::NumberLiteral(b), i + 1)),
            TokenModel::StringLiteral(s) => Ok((NodeModel::StringLiteral(s), i + 1)),
            TokenModel::Identifier(name) => if i + 1 < t.len() && t[i + 1]
                == TokenModel::LeftParen {
                match sp_arguments(t, i + 2) {
                    Err(e) => Err(e),
                    Ok((args, j)) => match sp_expect(t, j, TokenModel::RightParen) {
                        Err(e) => Err(e),
                        Ok(k) => Ok((NodeModel::FunctionCall { name, arguments: args }, k)),
                    },
                }
            } else {
                Ok((NodeModel::Identifier(name), i + 1))
            },
            TokenModel::LeftParen => match sp_expression(t, i + 1) {
                Err(e) => Err(e),
                Ok((e, j)) => match sp_expect(t, j, TokenModel::RightParen) {
                    Err(er) => Err(er),
                    Ok(k) => Ok((e, k)),
                },
            },
            _ => Err(ParseErrorModel::ExpectedExpression),
        }
    }
}

/// A comma-separated argument list, stopping before the closing parenthesis;
/// a comma not followed by another argument stops collection.
pub open spec fn sp_arguments(t: Seq<TokenModel>, i: int) -> Result<
    (Seq<NodeModel>, int),
    ParseErrorModel,
>
    decreases t.len() - i, 9int,
{
    if !(0 <= i < t.len()) {
        Ok((Seq::empty(), i))
    } else if t[i] == TokenModel::RightParen {
        Ok((Seq::empty(), i))
    } else {
        match sp_expression(t, i) {
            Err(e) => Err(e),
            Ok((arg, j)) => if i <= j && j < t.len() && t[j] == TokenModel::Comma {
                match sp_arguments(t, j + 1) {
                    Err(e) => Err(e),
                    Ok((rest, k)) => Ok((seq![arg] + rest, k)),
                }
            } else {
                Ok((seq![arg], j))
            },
        }
    }
}

/// A unary expression: any depth of prefix `-` and `!` over a primary.
pub open spec fn sp_unary(t: Seq<TokenModel>, i: int) -> Result<(NodeModel, int), ParseErrorModel>
    decreases t.len() - i, 3int,
{
    if 0 <= i < t.len() && (t[i] == TokenModel::Minus || t[i] == TokenModel::Bang) {
        match sp_unary(t, i + 1) {
            Err(e) => Err(e),
            Ok((operand, j)) => Ok(
                (NodeModel::UnaryExpression { operator: t[i], operand: Box::new(operand) }, j),
            ),
        }
    } else {
        sp_primary(t, i)
    }
}

/// The left-leaning tail of a multiplicative chain.
pub open spec fn sp_multiplication_rest(t: Seq<TokenModel>, i: int, acc: NodeModel) -> Result<
    (NodeModel, int),
    ParseErrorModel,
>
    decreases t.len() - i, 4int,
{
    if 0 <= i < t.len() && (t[i] == TokenModel::Star || t[i] == TokenModel::Slash) {
        match sp_unary(t, i + 1) {
            Err(e) => Err(e),
            Ok((rhs, j)) => if i < j <= t.len() {
                sp_multiplication_rest(
                    t,
                    j,
                    NodeModel::BinaryExpression {
                        left: Box::new(acc),
                        operator: t[i],
                        right: Box::new(rhs),
                    },
                )
            } else {
                Ok((acc, i))
            },
        }
    } else {
        Ok((acc, i))
    }
}

/// A multiplicative chain, left-associative.
pub open spec fn sp_multiplication(t: Seq<TokenModel>, i: int) -> Result<
    (NodeModel, int),
    ParseErrorModel,
>
    decreases t.len() - i, 4int,
{
    match sp_unary(t, i) {
        Err(e) => Err(e),
        Ok((first, j)) => if i < j <= t.len() {
            sp_multiplication_rest(t, j, first)
        } else {
            Ok((first, j))
        },
    }
}

/// The left-leaning tail of an additive chain.
pub open spec fn sp_addition_rest(t: Seq<TokenModel>, i: int, acc: NodeModel) -> Result<
    (NodeModel, int),
    ParseErrorModel,
>
    decreases t.len() - i, 5int,
{
    if 0 <= i < t.len() && (t[i] == TokenModel::Plus || t[i] == TokenModel::Minus) {
        match sp_multiplication(t, i + 1) {
            Err(e) => Err(e),
            Ok((rhs, j)) => if i < j <= t.len() {
                sp_addition_rest(
                    t,
                    j,
                    NodeModel::BinaryExpression {
                        left: Box::new(acc),
                        operator: t[i],
                        right: Box::new(rhs),
                    },
                )
            } else {
                Ok((acc, i))
            },
        }
    } else {
        Ok((acc, i))
    }
}

/// An additive chain, left-associative.
pub open spec fn sp_addition(t: Seq<TokenModel>, i: int) -> Result<
    (NodeModel, int),
    ParseErrorModel,
>
    decreases t.len() - i, 5int,
{
    match sp_multiplication(t, i) {
        Err(e) => Err(e),
        Ok((first, j)) => if i < j <= t.len() {
            sp_addition_rest(t, j, first)
        } else {
            Ok((first, j))
        },
    }
}

/// The left-leaning tail of a comparison chain.
pub open spec fn sp_comparison_rest(t: Seq<TokenModel>, i: int, acc: NodeModel) -> Result<
    (NodeModel, int),
    ParseErrorModel,
>
    decreases t.len() - i, 6int,
{
    if 0 <= i < t.len() && (t[i] == TokenModel::LessThan || t[i] == TokenModel::GreaterThan || t[i]
        == TokenModel::LessEqual || t[i] == TokenModel::GreaterEqual) {
        match sp_addition(t, i + 1) {
            Err(e) => Err(e),
            Ok((rhs, j)) => if i < j <= t.len() {
                sp_comparison_rest(
                    t,
                    j,
                    NodeModel::BinaryExpression {
                        left: Box::new(acc),
                        operator: t[i],
                        right: Box::new(rhs),
                    },
                )
            } else {
                Ok((acc, i))
            },
        }
    } else {
        Ok((acc, i))
    }
}

/// A comparison chain, left-associative.
pub open spec fn sp_comparison(t: Seq<TokenModel>, i: int) -> Result<
    (NodeModel, int),
    ParseErrorModel,
>
    decreases t.len() - i, 6int,
{
    match sp_addition(t, i) {
        Err(e) => Err(e),
        Ok((first, j)) => if i < j <= t.len() {
            sp_comparison_rest(t, j, first)
        } else {
            Ok((first, j))
        },
    }
}

/// The left-leaning tail of an equality chain.
pub open spec fn sp_equality_rest(t: Seq<TokenModel>, i: int, acc: NodeModel) -> Result<
    (NodeModel, int),
    ParseErrorModel,
>
    decreases t.len() - i, 7int,
{
    if 0 <= i < t.len() && (t[i] == TokenModel::EqualEqual || t[i] == TokenModel::NotEqual) {
        match sp_comparison(t, i + 1) {
            Err(e) => Err(e),
            Ok((rhs, j)) => if i < j <= t.len() {
                sp_equality_rest(
                    t,
                    j,
                    NodeModel::BinaryExpression {
                        left: Box::new(acc),
                        operator: t[i],
                        right: Box::new(rhs),
                    },
                )
            } else {
                Ok((acc, i))
            },
        }
    } else {
        Ok((acc, i))
    }
}

/// An equality chain, left-associative.
pub open spec fn sp_equality(t: Seq<TokenModel>, i: int) -> Result<
    (NodeModel, int),
    ParseErrorModel,
>
    decreases t.len() - i, 7int,
{
    match sp_comparison(t, i) {
        Err(e) => Err(e),
        Ok((first, j)) => if i < j <= t.len() {
            sp_equality_rest(t, j, first)
        } else {
            Ok((first, j))
        },
    }
}

/// A full expression: the lowest-precedence level is equality.
pub open spec fn sp_expression(t: Seq<TokenModel>, i: int) -> Result<
    (NodeModel, int),
    ParseErrorModel,
>
    decreases t.len() - i, 8int,
{
    sp_equality(t, i)
}

/// A comma-separated list of bare parameter names, stopping before the
/// closing parenthesis; a comma not followed by another name stops
/// collection.
pub open spec fn sp_parameters(t: Seq<TokenModel>, i: int) -> Result<
    (Seq<Seq<char>>, int),
    ParseErrorModel,
>
    decreases t.len() - i, 9int,
{
    if !(0 <= i < t.len()) {
        Ok((Seq::empty(), i))
    } else {
        match t[i] {
            TokenModel::Identifier(name) => if i + 1 < t.len() && t[i + 1] == TokenModel::Comma {
                match sp_parameters(t, i + 2) {
                    Err(e) => Err(e),
                    Ok((rest, k)) => Ok((seq![name] + rest, k)),
                }
            } else {
                Ok((seq![name], i + 1))
            },
            TokenModel::RightParen => Ok((Seq::empty(), i)),
            _ => Err(ParseErrorModel::UnexpectedParameterToken),
        }
    }
}

/// A print statement: `print`, one expression, `;`.
pub open spec fn sp_print_statement(t: Seq<TokenModel>, i: int) -> Result<
    (NodeModel, int),
    ParseErrorModel,
>
    decreases t.len() - i, 9int,
{
    match sp_expression(t, i + 1) {
        Err(e) => Err(e),
        Ok((e, j)) => match sp_expect(t, j, TokenModel::Semicolon) {
            Err(er) => Err(er),
            Ok(k) => Ok((NodeModel::PrintStatement(Box::new(e)), k)),
        },
    }
}

/// The statements of a block up to and including its closing brace. An end
/// marker inside a block is reported as a missing closing brace (the block
/// can never be completed past it).
pub open spec fn sp_block(t: Seq<TokenModel>, i: int) -> Result<
    (Seq<NodeModel>, int),
    ParseErrorModel,
>
    decreases t.len() - i, 11int,
{
    if !(0 <= i < t.len()) {
        Ok((Seq::empty(), i))
    } else if t[i] == TokenModel::RightBrace {
        Ok((Seq::empty(), i + 1))
    } else if t[i] == TokenModel::EOF {
        Err(ParseErrorModel::Expected(TokenModel::RightBrace, Some(TokenModel::EOF)))
    } else {
        match sp_statement(t, i) {
            Err(e) => Err(e),
            Ok((stmt, j)) => if i < j <= t.len() {
                match sp_block(t, j) {
                    Err(e) => Err(e),
                    Ok((rest, k)) => Ok((seq![stmt] + rest, k)),
                }
            } else {
                Ok((seq![stmt], j))
            },
        }
    }
}

/// An if statement: condition in parentheses, braced then-block, optional
/// braced else-block.
pub open spec fn sp_if_statement(t: Seq<TokenModel>, i: int) -> Result<
    (NodeModel, int),
    ParseErrorModel,
>
    decreases t.len() - i, 9int,
{
    match sp_expect(t, i + 1, TokenModel::LeftParen) {
        Err(e) => Err(e),
        Ok(a) => match sp_expression(t, a) {
            Err(e) => Err(e),
            Ok((cond, b)) => match sp_expect(t, b, TokenModel::RightParen) {
                Err(e) => Err(e),
                Ok(c) => match sp_expect(t, c, TokenModel::LeftBrace) {
                    Err(e) => Err(e),
                    Ok(d) => if i < d <= t.len() {
                        match sp_block(t, d) {
                            Err(e) => Err(e),
                            Ok((then_ss, j)) => if 0 <= j < t.len() && t[j] == TokenModel::Else {
                                match sp_expect(t, j + 1, TokenModel::LeftBrace) {
                                    Err(e) => Err(e),
                                    Ok(g) => if i < g <= t.len() {
                                        match sp_block(t, g) {
                                            Err(e) => Err(e),
                                            Ok((else_ss, k)) => Ok(
                                                (
                                                    NodeModel::IfStatement {
                                                        condition: Box::new(cond),
                                                        then_branch: then_ss,
                                                        else_branch: Some(else_ss),
                                                    },
                                                    k,
                                                ),
                                            ),
                                        }
                                    } else {
                                        Err(ParseErrorModel::ExpectedExpression)
                                    },
                                }
                            } else {
                                Ok(
                                    (
                                        NodeModel::IfStatement {
                                            condition: Box::new(cond),
                                            then_branch: then_ss,
                                            else_branch: None,
                                        },
                                        j,
                                    ),
                                )
                            },
                        }
                    } else {
                        Err(ParseErrorModel::ExpectedExpression)
                    },
                },
            },
        },
    }
}

/// A function declaration: name, parenthesized parameter names, braced body.
pub open spec fn sp_function_declaration(t: Seq<TokenModel>, i: int) -> Result<
    (NodeModel, int),
    ParseErrorModel,
>
    decreases t.len() - i, 9int,
{
    if !(0 <= i + 1 < t.len() && t[i + 1] matches TokenModel::Identifier(_)) {
        Err(ParseErrorModel::ExpectedFunctionName)
    } else {
        let name = t[i + 1]->Identifier_0;
        match sp_expect(t, i + 2, TokenModel::LeftParen) {
            Err(e) => Err(e),
            Ok(a) => match sp_parameters(t, a) {
                Err(e) => Err(e),
                Ok((params, b)) => match sp_expect(t, b, TokenModel::RightParen) {
                    Err(e) => Err(e),
                    Ok(c) => match sp_expect(t, c, TokenModel::LeftBrace) {
                        Err(e) => Err(e),
                        Ok(d) => if i < d <= t.len() {
                            match sp_block(t, d) {
                                Err(e) => Err(e),
                                Ok((body, k)) => Ok(
                                    (
                                        NodeModel::FunctionDeclaration {
                                            name,
                                            parameters: params,
                                            body,
                                        },
                                        k,
                                    ),
                                ),
                            }
                        } else {
                            Err(ParseErrorModel::ExpectedExpression)
                        },
                    },
                },
            },
        }
    }
}

/// An assignment where the parsed expression is a bare identifier followed
/// by `=`; otherwise the expression itself as a statement.
pub open spec fn sp_assignment_or_expression_statement(t: Seq<TokenModel>, i: int) -> Result<
    (NodeModel, int),
    ParseErrorModel,
>
    decreases t.len() - i, 9int,
{
    match sp_expression(t, i) {
        Err(e) => Err(e),
        Ok((expr, j)) => if 0 <= j < t.len() && t[j] == TokenModel::Assign {
            match expr {
                NodeModel::Identifier(name) => if i <= j {
                    match sp_expression(t, j + 1) {
                        Err(e) => Err(e),
                        Ok((value, k)) => match sp_expect(t, k, TokenModel::Semicolon) {
                            Err(e) => Err(e),
                            Ok(m) => Ok(
                                (NodeModel::VariableAssignment(name, Box::new(value)), m),
                            ),
                        },
                    }
                } else {
                    Err(ParseErrorModel::ExpectedExpression)
                },
                _ => Err(ParseErrorModel::InvalidAssignmentTarget),
            }
        } else {
            match sp_expect(t, j, TokenModel::Semicolon) {
                Err(e) => Err(e),
                Ok(k) => Ok((expr, k)),
            }
        },
    }
}

/// One statement, dispatched on its first token. A bare semicolon and the
/// end marker both yield an empty statement; the end marker consumes
/// nothing.
pub open spec fn sp_statement(t: Seq<TokenModel>, i: int) -> Result<
    (NodeModel, int),
    ParseErrorModel,
>
    decreases t.len() - i, 10int,
{
    if !(0 <= i < t.len()) {
        Err(ParseErrorModel::UnexpectedStatementToken)
    } else {
        match t[i] {
            TokenModel::Print => sp_print_statement(t, i),
            TokenModel::If => sp_if_statement(t, i),
            TokenModel::Function => sp_function_declaration(t, i),
            TokenModel::Identifier(_) => sp_assignment_or_expression_statement(t, i),
            TokenModel::Semicolon => Ok((NodeModel::Program(Seq::empty()), i + 1)),
            TokenModel::EOF => Ok((NodeModel::Program(Seq::empty()), i)),
            _ => Err(ParseErrorModel::UnexpectedStatementToken),
        }
    }
}

/// The top-level statement sequence, up to the end marker.
pub open spec fn sp_program(t: Seq<TokenModel>, i: int) -> Result<
    (Seq<NodeModel>, int),
    ParseErrorModel,
>
    decreases t.len() - i, 12int,
{
    if !(0 <= i < t.len()) {
        Ok((Seq::empty(), i))
    } else if t[i] == TokenModel::EOF {
        Ok((Seq::empty(), i))
    } else {
        match sp_statement(t, i) {
            Err(e) => Err(e),
            Ok((stmt, j)) => if i < j <= t.len() {
                match sp_program(t, j) {
                    Err(e) => Err(e),
                    Ok((rest, k)) => Ok((seq![stmt] + rest, k)),
                }
            } else {
                Ok((seq![stmt], j))
            },
        }
    }
}

/// What parsing a token sequence yields: the statement nodes, or the first
/// error. The same token sequence always yields the same result; this
/// function is that determinism.
pub open spec fn sp_parse(t: Seq<TokenModel>) -> Result<Seq<NodeModel>, ParseErrorModel> {
    match sp_program(t, 0) {
        Ok((nodes, _)) => Ok(nodes),
        Err(e) => Err(e),
    }
}

} // verus!

verus! {

// ---------------------------------------------------------------------------
// The executable parser, proved to return what the specification parser says.
// ---------------------------------------------------------------------------

/// An executable result mirrors a specification result that consumed at
/// least one token.
pub open spec fn strict_node_result(
    r: Result<(ASTNode, usize), ParseError>,
    sr: Result<(NodeModel, int), ParseErrorModel>,
    i: int,
    n: int,
) -> bool {
    match r {
        Ok(p) => sr == Ok::<(NodeModel, int), ParseErrorModel>((p.0@, p.1 as int)) && i < p.1 <= n,
        Err(e) => sr == Err::<(NodeModel, int), ParseErrorModel>(e@),
    }
}

/// An executable result mirrors a specification result that may have
/// consumed nothing.
pub open spec fn loose_node_result(
    r: Result<(ASTNode, usize), ParseError>,
    sr: Result<(NodeModel, int), ParseErrorModel>,
    i: int,
    n: int,
) -> bool {
    match r {
        Ok(p) => sr == Ok::<(NodeModel, int), ParseErrorModel>((p.0@, p.1 as int)) && i <= p.1 <= n,
        Err(e) => sr == Err::<(NodeModel, int), ParseErrorModel>(e@),
    }
}

/// As `loose_node_result`, for statement-list results.
pub open spec fn list_result(
    r: Result<(Vec<ASTNode>, usize), ParseError>,
    sr: Result<(Seq<NodeModel>, int), ParseErrorModel>,
    i: int,
    n: int,
) -> bool {
    match r {
        Ok(p) => sr == Ok::<(Seq<NodeModel>, int), ParseErrorModel>((nodes_view(p.0@), p.1 as int))
            && i <= p.1 <= n,
        Err(e) => sr == Err::<(Seq<NodeModel>, int), ParseErrorModel>(e@),
    }
}

/// A copy of a token, equal to the original in its model.
pub fn token_dup(t: &Token) -> (r: Token)
    ensures
        r@ == t@,
{
    match t {
        Token::Print => Token::Print,
        Token::If => Token::If,
        Token::Else => Token::Else,
        Token::Function => Token::Function,
        Token::Identifier(s) => Token::Identifier(s.clone()),
        Token::StringLiteral(s) => Token::StringLiteral(s.clone()),
        Token::NumberLiteral(b) => Token::NumberLiteral(*b),
        Token::Assign => Token::Assign,
        Token::Plus => Token::Plus,
        Token::Minus => Token::Minus,
        Token::Star => Token::Star,
        Token::Slash => Token::Slash,
        Token::EqualEqual => Token::EqualEqual,
        Token::NotEqual => Token::NotEqual,
        Token::LessThan => Token::LessThan,
        Token::GreaterThan => Token::GreaterThan,
        Token::LessEqual => Token::LessEqual,
        Token::GreaterEqual => Token::GreaterEqual,
        Token::Bang => Token::Bang,
        Token::Comma => Token::Comma,
        Token::Semicolon => Token::Semicolon,
        Token::LeftParen => Token::LeftParen,
        Token::RightParen => Token::RightParen,
        Token::LeftBrace => Token::LeftBrace,
        Token::RightBrace => Token::RightBrace,
        Token::EOF => Token::EOF,
    }
}

/// Whether two tokens have the same model.
pub fn token_matches(a: &Token, b: &Token) -> (r: bool)
    ensures
        r == (a@ == b@),
{
    match (a, b) {
        (Token::Print, Token::Print) => true,
        (Token::If, Token::If) => true,
        (Token::Else, Token::Else) => true,
        (Token::Function, Token::Function) => true,
        (Token::Identifier(x), Token::Identifier(y)) => x.eq(y),
        (Token::StringLiteral(x), Token::StringLiteral(y)) => x.eq(y),
        (Token::NumberLiteral(x), Token::NumberLiteral(y)) => x == y,
        (Token::Assign, Token::Assign) => true,
        (Token::Plus, Token::Plus) => true,
        (Token::Minus, Token::Minus) => true,
        (Token::Star, Token::Star) => true,
        (Token::Slash, Token::Slash) => true,
        (Token::EqualEqual, Token::EqualEqual) => true,
        (Token::NotEqual, Token::NotEqual) => true,
        (Token::LessThan, Token::LessThan) => true,
        (Token::GreaterThan, Token::GreaterThan) => true,
        (Token::LessEqual, Token::LessEqual) => true,
        (Token::GreaterEqual, Token::GreaterEqual) => true,
        (Token::Bang, Token::Bang) => true,
        (Token::Comma, Token::Comma) => true,
        (Token::Semicolon, Token::Semicolon) => true,
        (Token::LeftParen, Token::LeftParen) => true,
        (Token::RightParen, Token::RightParen) => true,
        (Token::LeftBrace, Token::LeftBrace) => true,
        (Token::RightBrace, Token::RightBrace) => true,
        (Token::EOF, Token::EOF) => true,
        _ => false,
    }
}


/// Prepends a node to a parsed list.
fn cons_node(first: ASTNode, rest: Vec<ASTNode>) -> (out: Vec<ASTNode>)
    ensures
        nodes_view(out@) == seq![first@] + nodes_view(rest@),
{
    let ghost firstm = first@;
    let ghost rest0 = rest@;
    let mut out: Vec<ASTNode> = Vec::new();
    out.push(first);
    let mut tail = rest;
    out.append(&mut tail);
    proof {
        let lhs = nodes_view(out@);
        let rhs = seq![firstm] + nodes_view(rest0);
        assert(out@ =~= seq![out@[0]] + rest0);
        assert forall|q: int| 0 <= q < lhs.len() implies lhs[q] == rhs[q] by {
            if q > 0 {
                assert(out@[q] == rest0[q - 1]);
            }
        }
        assert(lhs =~= rhs);
    }
    out
}

/// Prepends a name to a parsed parameter list.
fn cons_str(first: String, rest: Vec<String>) -> (out: Vec<String>)
    ensures
        strs_view(out@) == seq![first@] + strs_view(rest@),
{
    let ghost firstm = first@;
    let ghost rest0 = rest@;
    let mut out: Vec<String> = Vec::new();
    out.push(first);
    let mut tail = rest;
    out.append(&mut tail);
    proof {
        assert(strs_view(out@) =~= seq![firstm] + strs_view(rest0));
    }
    out
}

/// An empty node list.
fn empty_nodes() -> (out: Vec<ASTNode>)
    ensures
        nodes_view(out@) == Seq::<NodeModel>::empty(),
        out@.len() == 0,
{
    let out: Vec<ASTNode> = Vec::new();
    proof {
        assert(nodes_view(out@) =~= Seq::<NodeModel>::empty());
    }
    out
}

/// Consumes one expected token or reports what stood in its place.
fn expect_token(tokens: &[Token], i: usize, expected: &Token) -> (r: Result<usize, ParseError>)
    ensures
        ({
            let sr = sp_expect(toks_view(tokens@), i as int, expected@);
            match r {
                Ok(j) => sr == Ok::<int, ParseErrorModel>(j as int) && i < j <= tokens@.len(),
                Err(e) => sr == Err::<int, ParseErrorModel>(e@),
            }
        }),
{
    if i < tokens.len() {
        let t = &tokens[i];
        if token_matches(t, expected) {
            Ok(i + 1)
        } else {
            Err(ParseError::Expected(token_dup(expected), Some(token_dup(t))))
        }
    } else {
        Err(ParseError::Expected(token_dup(expected), None))
    }
}

fn parse_primary(tokens: &[Token], i: usize) -> (r: Result<(ASTNode, usize), ParseError>)
    requires
        i <= tokens@.len(),
    ensures
        strict_node_result(
            r,
            sp_primary(toks_view(tokens@), i as int),
            i as int,
            tokens@.len() as int,
        ),
    decreases tokens@.len() - i, 2int,
{
    let n = tokens.len();
    if i >= n {
        return Err(ParseError::ExpectedExpression);
    }
    match &tokens[i] {
        Token::NumberLiteral(b) => Ok((ASTNode::NumberLiteral(*b), i + 1)),
        Token::StringLiteral(s) => Ok((ASTNode::StringLiteral(s.clone()), i + 1)),
        Token::Identifier(name) => {
            if i + 1 < n {
                if let Token::LeftParen = &tokens[i + 1] {
                    let (args, j) = match parse_arguments(tokens, i + 2) {
                        Ok(p) => p,
                        Err(e) => return Err(e),
                    };
                    let k = match expect_token(tokens, j, &Token::RightParen) {
                        Ok(k) => k,
                        Err(e) => return Err(e),
                    };
                    return Ok((ASTNode::FunctionCall { name: name.clone(), arguments: args }, k));
                }
            }
            Ok((ASTNode::Identifier(name.clone()), i + 1))
        },
        Token::LeftParen => {
            let (e, j) = match parse_expression(tokens, i + 1) {
                Ok(p) => p,
                Err(e) => return Err(e),
            };
            let k = match expect_token(tokens, j, &Token::RightParen) {
                Ok(k) => k,
                Err(e) => return Err(e),
            };
            Ok((e, k))
        },
        _ => Err(ParseError::ExpectedExpression),
    }
}

#[verifier::rlimit(80)]
fn parse_arguments(tokens: &[Token], i: usize) -> (r: Result<(Vec<ASTNode>, usize), ParseError>)
    requires
        i <= tokens@.len(),
    ensures
        list_result(
            r,
            sp_arguments(toks_view(tokens@), i as int),
            i as int,
            tokens@.len() as int,
        ),
    decreases tokens@.len() - i, 9int,
{
    let n = tokens.len();
    if i >= n {
        let out = empty_nodes();
        return Ok((out, i));
    }
    if let Token::RightParen = &tokens[i] {
        let out = empty_nodes();
        return Ok((out, i));
    }
    let (arg, j) = match parse_expression(tokens, i) {
        Ok(p) => p,
        Err(e) => return Err(e),
    };
    if j < n {
        if let Token::Comma = &tokens[j] {
            let (rest, k) = match parse_arguments(tokens, j + 1) {
                Ok(p) => p,
                Err(e) => return Err(e),
            };
            let out = cons_node(arg, rest);
            return Ok((out, k));
        }
    }
    let ghost argm = arg@;
    let mut out: Vec<ASTNode> = Vec::new();
    out.push(arg);
    proof {
        assert(nodes_view(out@) =~= seq![argm]);
    }
    Ok((out, j))
}

fn parse_unary(tokens: &[Token], i: usize) -> (r: Result<(ASTNode, usize), ParseError>)
    requires
        i <= tokens@.len(),
    ensures
        strict_node_result(
            r,
            sp_unary(toks_view(tokens@), i as int),
            i as int,
            tokens@.len() as int,
        ),
    decreases tokens@.len() - i, 3int,
{
    let n = tokens.len();
    if i < n {
        let is_minus = if let Token::Minus = &tokens[i] {
            true
        } else {
            false
        };
        let is_bang = if let Token::Bang = &tokens[i] {
            true
        } else {
            false
        };
        if is_minus || is_bang {
            let op = if is_minus {
                Token::Minus
            } else {
                Token::Bang
            };
            let (operand, j) = match parse_unary(tokens, i + 1) {
                Ok(p) => p,
                Err(e) => return Err(e),
            };
            return Ok((ASTNode::UnaryExpression { operator: op, operand: Box::new(operand) }, j));
        }
    }
    parse_primary(tokens, i)
}

fn parse_multiplication(tokens: &[Token], i: usize) -> (r: Result<(ASTNode, usize), ParseError>)
    requires
        i <= tokens@.len(),
    ensures
        strict_node_result(
            r,
            sp_multiplication(toks_view(tokens@), i as int),
            i as int,
            tokens@.len() as int,
        ),
    decreases tokens@.len() - i, 4int,
{
    let (first, j) = match parse_unary(tokens, i) {
        Ok(p) => p,
        Err(e) => return Err(e),
    };
    parse_multiplication_rest(tokens, j, first)
}

fn parse_multiplication_rest(tokens: &[Token], i: usize, acc: ASTNode) -> (r: Result<
    (ASTNode, usize),
    ParseError,
>)
    requires
        i <= tokens@.len(),
    ensures
        loose_node_result(
            r,
            sp_multiplication_rest(toks_view(tokens@), i as int, acc@),
            i as int,
            tokens@.len() as int,
        ),
    decreases tokens@.len() - i, 4int,
{
    let n = tokens.len();
    if i < n {
        let is_star = if let Token::Star = &tokens[i] {
            true
        } else {
            false
        };
        let is_slash = if let Token::Slash = &tokens[i] {
            true
        } else {
            false
        };
        if is_star || is_slash {
            let op = if is_star {
                Token::Star
            } else {
                Token::Slash
            };
            let (rhs, j) = match parse_unary(tokens, i + 1) {
                Ok(p) => p,
                Err(e) => return Err(e),
            };
            return parse_multiplication_rest(
                tokens,
                j,
                ASTNode::BinaryExpression {
                    left: Box::new(acc),
                    operator: op,
                    right: Box::new(rhs),
                },
            );
        }
    }
    Ok((acc, i))
}

fn parse_addition(tokens: &[Token], i: usize) -> (r: Result<(ASTNode, usize), ParseError>)
    requires
        i <= tokens@.len(),
    ensures
        strict_node_result(
            r,
            sp_addition(toks_view(tokens@), i as int),
            i as int,
            tokens@.len() as int,
        ),
    decreases tokens@.len() - i, 5int,
{
    let (first, j) = match parse_multiplication(tokens, i) {
        Ok(p) => p,
        Err(e) => return Err(e),
    };
    parse_addition_rest(tokens, j, first)
}

fn parse_addition_rest(tokens: &[Token], i: usize, acc: ASTNode) -> (r: Result<
    (ASTNode, usize),
    ParseError,
>)
    requires
        i <= tokens@.len(),
    ensures
        loose_node_result(
            r,
            sp_addition_rest(toks_view(tokens@), i as int, acc@),
            i as int,
            tokens@.len() as int,
        ),
    decreases tokens@.len() - i, 5int,
{
    let n = tokens.len();
    if i < n {
        let is_plus = if let Token::Plus = &tokens[i] {
            true
        } else {
            false
        };
        let is_minus = if let Token::Minus = &tokens[i] {
            true
        } else {
            false
        };
        if is_plus || is_minus {
            let op = if is_plus {
                Token::Plus
            } else {
                Token::Minus
            };
            let (rhs, j) = match parse_multiplication(tokens, i + 1) {
                Ok(p) => p,
                Err(e) => return Err(e),
            };
            return parse_addition_rest(
                tokens,
                j,
                ASTNode::BinaryExpression {
                    left: Box::new(acc),
                    operator: op,
                    right: Box::new(rhs),
                },
            );
        }
    }
    Ok((acc, i))
}

fn parse_comparison(tokens: &[Token], i: usize) -> (r: Result<(ASTNode, usize), ParseError>)
    requires
        i <= tokens@.len(),
    ensures
        strict_node_result(
            r,
            sp_comparison(toks_view(tokens@), i as int),
            i as int,
            tokens@.len() as int,
        ),
    decreases tokens@.len() - i, 6int,
{
    let (first, j) = match parse_addition(tokens, i) {
        Ok(p) => p,
        Err(e) => return Err(e),
    };
    parse_comparison_rest(tokens, j, first)
}

fn parse_comparison_rest(tokens: &[Token], i: usize, acc: ASTNode) -> (r: Result<
    (ASTNode, usize),
    ParseError,
>)
    requires
        i <= tokens@.len(),
    ensures
        loose_node_result(
            r,
            sp_comparison_rest(toks_view(tokens@), i as int, acc@),
            i as int,
            tokens@.len() as int,
        ),
    decreases tokens@.len() - i, 6int,
{
    let n = tokens.len();
    if i < n {
        let op = match &tokens[i] {
            Token::LessThan => Some(Token::LessThan),
            Token::GreaterThan => Some(Token::GreaterThan),
            Token::LessEqual => Some(Token::LessEqual),
            Token::GreaterEqual => Some(Token::GreaterEqual),
            _ => None,
        };
        if let Some(op) = op {
            let (rhs, j) = match parse_addition(tokens, i + 1) {
                Ok(p) => p,
                Err(e) => return Err(e),
            };
            return parse_comparison_rest(
                tokens,
                j,
                ASTNode::BinaryExpression {
                    left: Box::new(acc),
                    operator: op,
                    right: Box::new(rhs),
                },
            );
        }
    }
    Ok((acc, i))
}

fn parse_equality(tokens: &[Token], i: usize) -> (r: Result<(ASTNode, usize), ParseError>)
    requires
        i <= tokens@.len(),
    ensures
        strict_node_result(
            r,
            sp_equality(toks_view(tokens@), i as int),
            i as int,
            tokens@.len() as int,
        ),
    decreases tokens@.len() - i, 7int,
{
    let (first, j) = match parse_comparison(tokens, i) {
        Ok(p) => p,
        Err(e) => return Err(e),
    };
    parse_equality_rest(tokens, j, first)
}

fn parse_equality_rest(tokens: &[Token], i: usize, acc: ASTNode) -> (r: Result<
    (ASTNode, usize),
    ParseError,
>)
    requires
        i <= tokens@.len(),
    ensures
        loose_node_result(
            r,
            sp_equality_rest(toks_view(tokens@), i as int, acc@),
            i as int,
            tokens@.len() as int,
        ),
    decreases tokens@.len() - i, 7int,
{
    let n = tokens.len();
    if i < n {
        let op = match &tokens[i] {
            Token::EqualEqual => Some(Token::EqualEqual),
            Token::NotEqual => Some(Token::NotEqual),
            _ => None,
        };
        if let Some(op) = op {
            let (rhs, j) = match parse_comparison(tokens, i + 1) {
                Ok(p) => p,
                Err(e) => return Err(e),
            };
            return parse_equality_rest(
                tokens,
                j,
                ASTNode::BinaryExpression {
                    left: Box::new(acc),
                    operator: op,
                    right: Box::new(rhs),
                },
            );
        }
    }
    Ok((acc, i))
}

fn parse_expression(tokens: &[Token], i: usize) -> (r: Result<(ASTNode, usize), ParseError>)
    requires
        i <= tokens@.len(),
    ensures
        strict_node_result(
            r,
            sp_expression(toks_view(tokens@), i as int),
            i as int,
            tokens@.len() as int,
        ),
    decreases tokens@.len() - i, 8int,
{
    parse_equality(tokens, i)
}

fn parse_parameters(tokens: &[Token], i: usize) -> (r: Result<(Vec<String>, usize), ParseError>)
    requires
        i <= tokens@.len(),
    ensures
        ({
            let sr = sp_parameters(toks_view(tokens@), i as int);
            match r {
                Ok(p) => sr == Ok::<(Seq<Seq<char>>, int), ParseErrorModel>(
                    (strs_view(p.0@), p.1 as int),
                ) && i <= p.1 <= tokens@.len(),
                Err(e) => sr == Err::<(Seq<Seq<char>>, int), ParseErrorModel>(e@),
            }
        }),
    decreases tokens@.len() - i, 9int,
{
    let n = tokens.len();
    if i >= n {
        let out: Vec<String> = Vec::new();
        proof {
            assert(strs_view(out@) =~= Seq::<Seq<char>>::empty());
        }
        return Ok((out, i));
    }
    match &tokens[i] {
        Token::Identifier(name) => {
            if i + 1 < n {
                if let Token::Comma = &tokens[i + 1] {
                    let (rest, k) = match parse_parameters(tokens, i + 2) {
                        Ok(p) => p,
                        Err(e) => return Err(e),
                    };
                    let out = cons_str(name.clone(), rest);
                    return Ok((out, k));
                }
            }
            let ghost namem = name@;
            let mut out: Vec<String> = Vec::new();
            out.push(name.clone());
            proof {
                assert(strs_view(out@) =~= seq![namem]);
            }
            Ok((out, i + 1))
        },
        Token::RightParen => {
            let out: Vec<String> = Vec::new();
            proof {
                assert(strs_view(out@) =~= Seq::<Seq<char>>::empty());
            }
            Ok((out, i))
        },
        _ => Err(ParseError::UnexpectedParameterToken),
    }
}

#[verifier::rlimit(80)]
fn parse_block(tokens: &[Token], i: usize) -> (r: Result<(Vec<ASTNode>, usize), ParseError>)
    requires
        i <= tokens@.len(),
    ensures
        list_result(r, sp_block(toks_view(tokens@), i as int), i as int, tokens@.len() as int),
    decreases tokens@.len() - i, 11int,
{
    let n = tokens.len();
    if i >= n {
        let out = empty_nodes();
        return Ok((out, i));
    }
    if let Token::RightBrace = &tokens[i] {
        let out = empty_nodes();
        return Ok((out, i + 1));
    }
    if let Token::EOF = &tokens[i] {
        return Err(ParseError::Expected(Token::RightBrace, Some(Token::EOF)));
    }
    let (stmt, j) = match parse_statement(tokens, i) {
        Ok(p) => p,
        Err(e) => return Err(e),
    };
    let (rest, k) = match parse_block(tokens, j) {
        Ok(p) => p,
        Err(e) => return Err(e),
    };
    let out = cons_node(stmt, rest);
    Ok((out, k))
}

fn parse_print_statement(tokens: &[Token], i: usize) -> (r: Result<(ASTNode, usize), ParseError>)
    requires
        i < tokens@.len(),
    ensures
        strict_node_result(
            r,
            sp_print_statement(toks_view(tokens@), i as int),
            i as int,
            tokens@.len() as int,
        ),
    decreases tokens@.len() - i, 9int,
{
    let n = tokens.len();
    let (e, j) = match parse_expression(tokens, i + 1) {
        Ok(p) => p,
        Err(e) => return Err(e),
    };
    let k = match expect_token(tokens, j, &Token::Semicolon) {
        Ok(k) => k,
        Err(e) => return Err(e),
    };
    Ok((ASTNode::PrintStatement(Box::new(e)), k))
}

#[verifier::rlimit(50)]
fn parse_if_statement(tokens: &[Token], i: usize) -> (r: Result<(ASTNode, usize), ParseError>)
    requires
        i < tokens@.len(),
    ensures
        strict_node_result(
            r,
            sp_if_statement(toks_view(tokens@), i as int),
            i as int,
            tokens@.len() as int,
        ),
    decreases tokens@.len() - i, 9int,
{
    let n = tokens.len();
    let a = match expect_token(tokens, i + 1, &Token::LeftParen) {
        Ok(k) => k,
        Err(e) => return Err(e),
    };
    let (cond, b) = match parse_expression(tokens, a) {
        Ok(p) => p,
        Err(e) => return Err(e),
    };
    let c = match expect_token(tokens, b, &Token::RightParen) {
        Ok(k) => k,
        Err(e) => return Err(e),
    };
    let d = match expect_token(tokens, c, &Token::LeftBrace) {
        Ok(k) => k,
        Err(e) => return Err(e),
    };
    let (then_ss, j) = match parse_block(tokens, d) {
        Ok(p) => p,
        Err(e) => return Err(e),
    };
    if j < tokens.len() {
        if let Token::Else = &tokens[j] {
            let g = match expect_token(tokens, j + 1, &Token::LeftBrace) {
                Ok(k) => k,
                Err(e) => return Err(e),
            };
            let (else_ss, k) = match parse_block(tokens, g) {
                Ok(p) => p,
                Err(e) => return Err(e),
            };
            return Ok(
                (
                    ASTNode::IfStatement {
                        condition: Box::new(cond),
                        then_branch: then_ss,
                        else_branch: Some(else_ss),
                    },
                    k,
                ),
            );
        }
    }
    Ok(
        (
            ASTNode::IfStatement {
                condition: Box::new(cond),
                then_branch: then_ss,
                else_branch: None,
            },
            j,
        ),
    )
}

#[verifier::rlimit(50)]
fn parse_function_declaration(tokens: &[Token], i: usize) -> (r: Result<
    (ASTNode, usize),
    ParseError,
>)
    requires
        i < tokens@.len(),
    ensures
        strict_node_result(
            r,
            sp_function_declaration(toks_view(tokens@), i as int),
            i as int,
            tokens@.len() as int,
        ),
    decreases tokens@.len() - i, 9int,
{
    let n = tokens.len();
    if i + 1 >= n {
        return Err(ParseError::ExpectedFunctionName);
    }
    let name: String = if let Token::Identifier(name) = &tokens[i + 1] {
        name.clone()
    } else {
        return Err(ParseError::ExpectedFunctionName);
    };
    let a = match expect_token(tokens, i + 2, &Token::LeftParen) {
        Ok(k) => k,
        Err(e) => return Err(e),
    };
    let (params, b) = match parse_parameters(tokens, a) {
        Ok(p) => p,
        Err(e) => return Err(e),
    };
    let c = match expect_token(tokens, b, &Token::RightParen) {
        Ok(k) => k,
        Err(e) => return Err(e),
    };
    let d = match expect_token(tokens, c, &Token::LeftBrace) {
        Ok(k) => k,
        Err(e) => return Err(e),
    };
    let (body, k) = match parse_block(tokens, d) {
        Ok(p) => p,
        Err(e) => return Err(e),
    };
    Ok((ASTNode::FunctionDeclaration { name, parameters: params, body }, k))
}

#[verifier::rlimit(80)]
fn parse_assignment_or_expression_statement(tokens: &[Token], i: usize) -> (r: Result<
    (ASTNode, usize),
    ParseError,
>)
    requires
        i < tokens@.len(),
    ensures
        strict_node_result(
            r,
            sp_assignment_or_expression_statement(toks_view(tokens@), i as int),
            i as int,
            tokens@.len() as int,
        ),
    decreases tokens@.len() - i, 9int,
{
    let (expr, j) = match parse_expression(tokens, i) {
        Ok(p) => p,
        Err(e) => return Err(e),
    };
    if j < tokens.len() {
        if let Token::Assign = &tokens[j] {
            return match expr {
                ASTNode::Identifier(name) => {
                    let (value, k) = match parse_expression(tokens, j + 1) {
                        Ok(p) => p,
                        Err(e) => return Err(e),
                    };
                    let m = match expect_token(tokens, k, &Token::Semicolon) {
                        Ok(k) => k,
                        Err(e) => return Err(e),
                    };
                    Ok((ASTNode::VariableAssignment(name, Box::new(value)), m))
                },
                _ => Err(ParseError::InvalidAssignmentTarget),
            };
        }
    }
    let k = match expect_token(tokens, j, &Token::Semicolon) {
        Ok(k) => k,
        Err(e) => return Err(e),
    };
    Ok((expr, k))
}

fn parse_statement(tokens: &[Token], i: usize) -> (r: Result<(ASTNode, usize), ParseError>)
    requires
        i <= tokens@.len(),
    ensures
        loose_node_result(
            r,
            sp_statement(toks_view(tokens@), i as int),
            i as int,
            tokens@.len() as int,
        ),
        ({
            let t = toks_view(tokens@);
            match r {
                Ok(p) => t[i as int] != TokenModel::EOF ==> i < p.1,
                Err(_) => true,
            }
        }),
    decreases tokens@.len() - i, 10int,
{
    let n = tokens.len();
    if i >= n {
        return Err(ParseError::UnexpectedStatementToken);
    }
    match &tokens[i] {
        Token::Print => parse_print_statement(tokens, i),
        Token::If => parse_if_statement(tokens, i),
        Token::Function => parse_function_declaration(tokens, i),
        Token::Identifier(_) => parse_assignment_or_expression_statement(tokens, i),
        Token::Semicolon => {
            let out = empty_nodes();
            Ok((ASTNode::Program(out), i + 1))
        },
        Token::EOF => {
            let out = empty_nodes();
            Ok((ASTNode::Program(out), i))
        },
        _ => Err(ParseError::UnexpectedStatementToken),
    }
}

#[verifier::rlimit(80)]
fn parse_program(tokens: &[Token], i: usize) -> (r: Result<(Vec<ASTNode>, usize), ParseError>)
    requires
        i <= tokens@.len(),
    ensures
        list_result(r, sp_program(toks_view(tokens@), i as int), i as int, tokens@.len() as int),
    decreases tokens@.len() - i, 12int,
{
    let n = tokens.len();
    if i >= n {
        let out = empty_nodes();
        return Ok((out, i));
    }
    if let Token::EOF = &tokens[i] {
        let out = empty_nodes();
        return Ok((out, i));
    }
    let (stmt, j) = match parse_statement(tokens, i) {
        Ok(p) => p,
        Err(e) => return Err(e),
    };
    let (rest, k) = match parse_program(tokens, j) {
        Ok(p) => p,
        Err(e) => return Err(e),
    };
    let out = cons_node(stmt, rest);
    Ok((out, k))
}

/// The reported name of a token in a parse error.
pub fn token_label(t: &Token) -> (r: String)
    ensures
        r@ == token_text(t@),
{
    match t {
        Token::Print => "Print".to_owned(),
        Token::If => "If".to_owned(),
        Token::Else => "Else".to_owned(),
        Token::Function => "Function".to_owned(),
        Token::Identifier(s) => {
            let a = str_concat("Identifier(\"", s.as_str());
            let b = str_concat(a.as_str(), "\")");
            proof {
                assert(b@ =~= token_text(t@));
            }
            b
        },
        Token::StringLiteral(s) => {
            let a = str_concat("StringLiteral(\"", s.as_str());
            let b = str_concat(a.as_str(), "\")");
            proof {
                assert(b@ =~= token_text(t@));
            }
            b
        },
        Token::NumberLiteral(bits) => {
            let num = render_number(*bits);
            let a = str_concat("NumberLiteral(", num.as_str());
            let b = str_concat(a.as_str(), ")");
            proof {
                assert(b@ =~= token_text(t@));
            }
            b
        },
        Token::Assign => "Assign".to_owned(),
        Token::Plus => "Plus".to_owned(),
        Token::Minus => "Minus".to_owned(),
        Token::Star => "Star".to_owned(),
        Token::Slash => "Slash".to_owned(),
        Token::EqualEqual => "EqualEqual".to_owned(),
        Token::NotEqual => "NotEqual".to_owned(),
        Token::LessThan => "LessThan".to_owned(),
        Token::GreaterThan => "GreaterThan".to_owned(),
        Token::LessEqual => "LessEqual".to_owned(),
        Token::GreaterEqual => "GreaterEqual".to_owned(),
        Token::Bang => "Bang".to_owned(),
        Token::Comma => "Comma".to_owned(),
        Token::Semicolon => "Semicolon".to_owned(),
        Token::LeftParen => "LeftParen".to_owned(),
        Token::RightParen => "RightParen".to_owned(),
        Token::LeftBrace => "LeftBrace".to_owned(),
        Token::RightBrace => "RightBrace".to_owned(),
        Token::EOF => "EOF".to_owned(),
    }
}

/// The message the parser reports for an error.
pub fn describe_error(e: &ParseError) -> (r: String)
    ensures
        r@ == error_message(e@),
{
    match e {
        ParseError::UnexpectedStatementToken => "Unexpected token in statement.".to_owned(),
        ParseError::ExpectedFunctionName => "Expected function name.".to_owned(),
        ParseError::UnexpectedParameterToken => "Unexpected token in parameter list.".to_owned(),
        ParseError::InvalidAssignmentTarget => "Invalid assignment target.".to_owned(),
        ParseError::ExpectedExpression => "Expected an expression.".to_owned(),
        ParseError::Expected(m, Some(f)) => {
            let a = str_concat("Expected token ", token_label(m).as_str());
            let b = str_concat(a.as_str(), ", found ");
            let c = str_concat(b.as_str(), token_label(f).as_str());
            proof {
                assert(c@ =~= error_message(e@));
            }
            c
        },
        ParseError::Expected(m, None) => {
            let a = str_concat("Expected token ", token_label(m).as_str());
            let b = str_concat(a.as_str(), ", found end of input");
            proof {
                assert(b@ =~= error_message(e@));
            }
            b
        },
    }
}

/// Parses a token sequence into the program's statement nodes, or the
/// message of the first structural mismatch. The result is exactly
/// `sp_parse` of the token models: parsing is deterministic.
pub fn parse(tokens: &[Token]) -> (r: Result<Vec<ASTNode>, String>)
    ensures
        ({
            let sr = sp_parse(toks_view(tokens@));
            match r {
                Ok(ns) => sr == Ok::<Seq<NodeModel>, ParseErrorModel>(nodes_view(ns@)),
                Err(m) => sr matches Err(e) && m@ == error_message(e),
            }
        }),
{
    match parse_program(tokens, 0) {
        Ok(p) => Ok(p.0),
        Err(e) => Err(describe_error(&e)),
    }
}

} // verus!
