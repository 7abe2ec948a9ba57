//! The expression tree and the parse errors, with their mathematical models.

use vstd::prelude::*;

verus! {

/// Model of an expression tree: a number leaf carries the digits of its
/// literal, a binary node carries its operator and its two children.
pub enum ExprModel {
    Num(Seq<char>),
    Bin { op: char, left: Box<ExprModel>, right: Box<ExprModel> },
}

/// An operator of the grammar.
pub open spec fn is_op_char(c: char) -> bool {
    c == '+' || c == '-' || c == '*' || c == '/'
}

impl ExprModel {
    /// Every number leaf holds a nonempty run of digits and every operator is
    /// one of `+ - * /`. The parser only builds such trees.
    pub open spec fn well_formed(self) -> bool
        decreases self,
    {
        match self {
            ExprModel::Num(text) => crate::text::is_number_text(text),
            ExprModel::Bin { op, left, right } => is_op_char(op) && left.well_formed()
                && right.well_formed(),
        }
    }
}

/// An arithmetic expression tree. A number leaf stores the digits of its
/// literal exactly as they stood in the input; a binary node owns its two
/// children.
#[derive(Debug, PartialEq)]
pub enum Expr {
    Number(String),
    BinaryOp { op: char, left: Box<Expr>, right: Box<Expr> },
}

/// The model of an expression tree: the same shape, with each number leaf
/// abstracted to its character sequence.
pub open spec fn expr_model(e: Expr) -> ExprModel
    decreases e,
{
    match e {
        Expr::Number(text) => ExprModel::Num(text@),
        Expr::BinaryOp { op, left, right } => ExprModel::Bin {
            op,
            left: Box::new(expr_model(*left)),
            right: Box::new(expr_model(*right)),
        },
    }
}

impl View for Expr {
    type V = ExprModel;

    open spec fn view(&self) -> ExprModel {
        expr_model(*self)
    }
}

/// Model of a parse error, with the offending token as a character sequence.
pub enum ParseErrorModel {
    UnexpectedEnd,
    UnexpectedToken(Seq<char>),
    MissingClosingParenthesis,
}

/// A parse failure: the input ended while a token was required, a token stood
/// where the grammar does not allow it, or an opened group was never closed.
#[derive(Debug, PartialEq)]
pub enum ParseError {
    UnexpectedEnd,
    UnexpectedToken(String),
    MissingClosingParenthesis,
}

impl View for ParseError {
    type V = ParseErrorModel;

    open spec fn view(&self) -> ParseErrorModel {
        match self {
            ParseError::UnexpectedEnd => ParseErrorModel::UnexpectedEnd,
            ParseError::UnexpectedToken(text) => ParseErrorModel::UnexpectedToken(text@),
            ParseError::MissingClosingParenthesis => ParseErrorModel::MissingClosingParenthesis,
        }
    }
}

} // verus!
