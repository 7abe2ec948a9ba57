//! The parser: recursive descent over the token sequence.
//!
//! The grammar has three levels, with precedence encoded structurally and
//! same-level operators grouping to the left:
//!
//! ```text
//! Expr   = Term { ("+" | "-") Term }
//! Term   = Factor { ("*" | "/") Factor }
//! Factor = Number | "(" Expr ")"
//! ```
//!
//! `spec_parse` and `spec_chain` are the mathematical model of the parser;
//! the executable functions are proved to return exactly what the model says,
//! token by token and error by error.

use vstd::prelude::*;
use vstd::string::StrSliceExecFns;

use crate::ast::Expr;
use crate::ast::ExprModel;
use crate::ast::ParseError;
use crate::ast::ParseErrorModel;
use crate::text::is_close_paren;
use crate::text::is_close_paren_text;
use crate::text::is_number_text;
use crate::text::is_number_token;
use crate::text::is_open_paren;
use crate::text::is_open_paren_text;
use crate::tokenizer::spec_tokenize;
use crate::tokenizer::tokenize;

verus! {

/// What one parsing step yields: a parsed subtree and the position of the
/// next unread token, or a terminal error.
pub enum ParseStep {
    Parsed { expr: ExprModel, next: int },
    Failed { err: ParseErrorModel },
}

/// The operators of one precedence level: `+ -` at the outer level (2),
/// `* /` at the inner level (1).
pub open spec fn is_level_op(c: char, level: int) -> bool {
    if level == 2 {
        c == '+' || c == '-'
    } else {
        c == '*' || c == '/'
    }
}

/// The operator chain at `level` goes on at position `j`: a token stands
/// there whose first character is one of the level's operators.
pub open spec fn chain_continues(toks: Seq<Seq<char>>, j: int, level: int) -> bool {
    j < toks.len() && toks[j].len() > 0 && is_level_op(toks[j][0], level)
}

/// One grammar level at position `i` of `toks`: level 0 parses a factor (a
/// number, or a parenthesized expression), level 1 a term, level 2 an
/// expression. A failure inside a group propagates unchanged; a group whose
/// inner expression is not followed by `)` is a missing-parenthesis error.
pub open spec fn spec_parse(toks: Seq<Seq<char>>, i: int, level: int) -> ParseStep
    decreases toks.len() - i, level, 0int,
        when 0 <= i <= toks.len() && 0 <= level <= 2
{
    if level == 0 {
        if i >= toks.len() {
            ParseStep::Failed { err: ParseErrorModel::UnexpectedEnd }
        } else if is_open_paren_text(toks[i]) {
            match spec_parse(toks, i + 1, 2) {
                ParseStep::Parsed { expr, next } => {
                    if next < toks.len() && is_close_paren_text(toks[next]) {
                        ParseStep::Parsed { expr, next: next + 1 }
                    } else {
                        ParseStep::Failed { err: ParseErrorModel::MissingClosingParenthesis }
                    }
                },
                failed => failed,
            }
        } else if is_number_text(toks[i]) {
            ParseStep::Parsed { expr: ExprModel::Num(toks[i]), next: i + 1 }
        } else {
            ParseStep::Failed { err: ParseErrorModel::UnexpectedToken(toks[i]) }
        }
    } else {
        match spec_parse(toks, i, level - 1) {
            ParseStep::Parsed { expr, next } => {
                if i < next <= toks.len() {
                    spec_chain(toks, next, level, expr)
                } else {
                    // a successful step always advances, so this branch is
                    // never reached; it keeps the recursion well founded
                    ParseStep::Failed { err: ParseErrorModel::UnexpectedEnd }
                }
            },
            failed => failed,
        }
    }
}

/// The left-growing operator chain of one level: with `acc` parsed and the
/// next unread token at `j`, folds one `op operand` step after another into
/// `acc` while the level's operators go on, which makes same-level operators
/// left-associative.
pub open spec fn spec_chain(toks: Seq<Seq<char>>, j: int, level: int, acc: ExprModel) -> ParseStep
    decreases toks.len() - j, level, 1int,
        when 0 <= j <= toks.len() && 1 <= level <= 2
{
    if chain_continues(toks, j, level) {
        let op = toks[j][0];
        match spec_parse(toks, j + 1, level - 1) {
            ParseStep::Parsed { expr, next } => {
                if j + 1 < next <= toks.len() {
                    spec_chain(
                        toks,
                        next,
                        level,
                        ExprModel::Bin { op, left: Box::new(acc), right: Box::new(expr) },
                    )
                } else {
                    // never reached: a successful step always advances
                    ParseStep::Failed { err: ParseErrorModel::UnexpectedEnd }
                }
            },
            failed => failed,
        }
    } else {
        ParseStep::Parsed { expr: acc, next: j }
    }
}

/// The whole front end on text: tokenize, then parse one expression at the
/// outer level. Trailing tokens after a complete expression are ignored.
pub open spec fn spec_parse_expression(s: Seq<char>) -> Result<ExprModel, ParseErrorModel> {
    match spec_parse(spec_tokenize(s), 0, 2) {
        ParseStep::Parsed { expr, .. } => Ok(expr),
        ParseStep::Failed { err } => Err(err),
    }
}

/// The step result `r` (tree or error, with the next position) agrees with
/// the model's step at `(i, level)`.
pub open spec fn step_matches(
    toks: Seq<Seq<char>>,
    i: int,
    level: int,
    r: (Result<Expr, ParseError>, usize),
) -> bool {
    match spec_parse(toks, i, level) {
        ParseStep::Parsed { expr, next } => match r.0 {
            Ok(e) => e@ == expr && r.1 == next,
            Err(_) => false,
        },
        ParseStep::Failed { err } => match r.0 {
            Ok(_) => false,
            Err(e) => e@ == err,
        },
    }
}

/// Decides `chain_continues` at position `j`.
fn has_level_op(tokens: &Vec<String>, j: usize, level: u8) -> (r: bool)
    requires
        1 <= level <= 2,
    ensures
        r == chain_continues(tokens.deep_view(), j as int, level as int),
{
    if j < tokens.len() {
        let t: &String = &tokens[j];
        proof {
            assert(tokens.deep_view()[j as int] == tokens@[j as int]@);
        }
        if t.as_str().unicode_len() > 0 {
            let c = t.as_str().get_char(0);
            if level == 2 {
                c == '+' || c == '-'
            } else {
                c == '*' || c == '/'
            }
        } else {
            false
        }
    } else {
        false
    }
}

/// Factor = Number | "(" Expr ")".
fn parse_factor(tokens: &Vec<String>, pos: usize) -> (r: (Result<Expr, ParseError>, usize))
    requires
        pos <= tokens@.len(),
    ensures
        step_matches(tokens.deep_view(), pos as int, 0, r),
        r.0 is Ok ==> pos < r.1 <= tokens@.len(),
    decreases tokens@.len() - pos, 1int,
{
    if pos >= tokens.len() {
        return (Err(ParseError::UnexpectedEnd), pos);
    }
    let t: &String = &tokens[pos];
    proof {
        assert(tokens.deep_view()[pos as int] == tokens@[pos as int]@);
    }
    if is_open_paren(t.as_str()) {
        let (inner, inner_next) = parse_expr(tokens, pos + 1);
        match inner {
            Ok(e) => {
                if inner_next < tokens.len() {
                    let closing: &String = &tokens[inner_next];
                    proof {
                        assert(tokens.deep_view()[inner_next as int] == tokens@[inner_next as int]@);
                    }
                    if is_close_paren(closing.as_str()) {
                        return (Ok(e), inner_next + 1);
                    }
                }
                (Err(ParseError::MissingClosingParenthesis), inner_next)
            },
            Err(err) => (Err(err), inner_next),
        }
    } else if is_number_token(t.as_str()) {
        (Ok(Expr::Number(t.clone())), pos + 1)
    } else {
        (Err(ParseError::UnexpectedToken(t.clone())), pos + 1)
    }
}

/// Term = Factor { ("*" | "/") Factor }.
fn parse_term(tokens: &Vec<String>, pos: usize) -> (r: (Result<Expr, ParseError>, usize))
    requires
        pos <= tokens@.len(),
    ensures
        step_matches(tokens.deep_view(), pos as int, 1, r),
        r.0 is Ok ==> pos < r.1 <= tokens@.len(),
    decreases tokens@.len() - pos, 3int,
{
    parse_binary_op(tokens, pos, 1)
}

/// Expr = Term { ("+" | "-") Term }.
fn parse_expr(tokens: &Vec<String>, pos: usize) -> (r: (Result<Expr, ParseError>, usize))
    requires
        pos <= tokens@.len(),
    ensures
        step_matches(tokens.deep_view(), pos as int, 2, r),
        r.0 is Ok ==> pos < r.1 <= tokens@.len(),
    decreases tokens@.len() - pos, 5int,
{
    parse_binary_op(tokens, pos, 2)
}

/// The shared binary-operator chain: parse one operand of the next level
/// down, then, while the next token opens with one of this level's
/// operators, consume it, parse the next operand, and fold the two into a
/// left-growing node.
fn parse_binary_op(tokens: &Vec<String>, pos: usize, level: u8) -> (r: (
    Result<Expr, ParseError>,
    usize,
))
    requires
        pos <= tokens@.len(),
        1 <= level <= 2,
    ensures
        step_matches(tokens.deep_view(), pos as int, level as int, r),
        r.0 is Ok ==> pos < r.1 <= tokens@.len(),
    decreases tokens@.len() - pos, 2 * (level as int),
{
    let (first, first_next) = if level == 2 {
        parse_term(tokens, pos)
    } else {
        parse_factor(tokens, pos)
    };
    let mut left = match first {
        Ok(e) => e,
        Err(err) => {
            return (Err(err), first_next);
        },
    };
    let mut j = first_next;
    let n = tokens.len();
    while has_level_op(tokens, j, level)
        invariant
            n == tokens@.len(),
            pos < j <= n,
            1 <= level <= 2,
            spec_parse(tokens.deep_view(), pos as int, level as int) == spec_chain(
                tokens.deep_view(),
                j as int,
                level as int,
                left@,
            ),
        decreases tokens@.len() - j,
    {
        proof {
            assert(tokens.deep_view().len() == tokens@.len());
            assert(j < n);
        }
        let t: &String = &tokens[j];
        proof {
            assert(tokens.deep_view()[j as int] == tokens@[j as int]@);
        }
        let op = t.as_str().get_char(0);
        let (sub, sub_next) = if level == 2 {
            parse_term(tokens, j + 1)
        } else {
            parse_factor(tokens, j + 1)
        };
        match sub {
            Ok(rhs) => {
                let folded = Expr::BinaryOp { op, left: Box::new(left), right: Box::new(rhs) };
                left = folded;
                j = sub_next;
            },
            Err(err) => {
                return (Err(err), j);
            },
        }
    }
    (Ok(left), j)
}

/// Parses one arithmetic expression out of `input`: tokenization, then
/// recursive descent from the outer level. Returns the tree, or the first
/// error met; the result is exactly `spec_parse_expression(input@)`.
/// Tokens left over after a complete expression are silently ignored, so
/// `2 + 3 ) )` parses as `2 + 3`.
pub fn parse_expression(input: &str) -> (r: Result<Expr, ParseError>)
    ensures
        (match r {
            Ok(e) => spec_parse_expression(input@) == Ok::<ExprModel, ParseErrorModel>(e@),
            Err(err) => spec_parse_expression(input@) == Err::<ExprModel, ParseErrorModel>(err@),
        }),
{
    let tokens = match tokenize(input) {
        Ok(tokens) => tokens,
        Err(err) => {
            // tokenization never fails
            return Err(err);
        },
    };
    let (res, _) = parse_expr(&tokens, 0);
    res
}

} // verus!
