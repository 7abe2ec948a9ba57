//! The round-trip law: rendering a parsed tree back to infix text and
//! parsing that text returns the very same tree.
//!
//! The proof goes in two halves. Tokenizing the infix rendering of a
//! well-formed tree yields exactly the tree's token run (`spec_token_run`),
//! and parsing a token run as a factor yields the tree back, whatever stands
//! around it: an infix rendering is fully parenthesized, so it always parses
//! as a single factor.

use vstd::prelude::*;

use crate::ast::ExprModel;
use crate::ast::ParseErrorModel;
use crate::ast::is_op_char;
use crate::parser::ParseStep;
use crate::parser::chain_continues;
use crate::parser::is_level_op;
use crate::parser::spec_chain;
use crate::parser::spec_parse;
use crate::parser::spec_parse_expression;
use crate::render::spec_infix;
use crate::text::is_close_paren_text;
use crate::text::is_digit_char;
use crate::text::is_number_text;
use crate::text::is_open_paren_text;
use crate::text::is_whitespace_char;
use crate::tokenizer::spec_flush;
use crate::tokenizer::spec_tokenize;
use crate::tokenizer::spec_tokenize_from;

verus! {

/// A character that ends a pending number literal and stands as a token of
/// its own: neither a digit nor whitespace.
pub open spec fn is_symbol_char(c: char) -> bool {
    !is_digit_char(c) && !is_whitespace_char(c)
}

/// The text `tail` cannot lengthen a number literal pending just before it:
/// it is empty, or opens with a symbol, or opens with one space followed by
/// a symbol. Every tail that follows a subexpression inside an infix
/// rendering has this shape.
pub open spec fn is_literal_boundary(tail: Seq<char>) -> bool {
    ||| tail.len() == 0
    ||| is_symbol_char(tail[0])
    ||| (tail[0] == ' ' && tail.len() >= 2 && is_symbol_char(tail[1]))
}

/// The tokens of the infix rendering of `e`: its number literals, operators
/// and parentheses, in rendering order.
pub open spec fn spec_token_run(e: ExprModel) -> Seq<Seq<char>>
    decreases e,
{
    match e {
        ExprModel::Num(text) => seq![text],
        ExprModel::Bin { op, left, right } => seq![seq!['(']] + spec_token_run(*left) + seq![
            seq![op],
        ] + spec_token_run(*right) + seq![seq![')']],
    }
}

/// At a literal boundary the pending digits always flush into a token of
/// their own, exactly as they would have at the end of the input.
proof fn lemma_flush_at_boundary(tail: Seq<char>, pending: Seq<char>)
    requires
        is_literal_boundary(tail),
    ensures
        spec_tokenize_from(tail, pending) == spec_flush(pending) + spec_tokenize_from(
            tail,
            Seq::empty(),
        ),
{
    if tail.len() == 0 {
        assert(spec_tokenize_from(tail, pending) =~~= spec_flush(pending) + spec_tokenize_from(
            tail,
            Seq::empty(),
        ));
    } else if is_symbol_char(tail[0]) {
        assert(spec_tokenize_from(tail, pending) =~~= spec_flush(pending) + spec_tokenize_from(
            tail,
            Seq::empty(),
        ));
    } else {
        // one space, then a symbol: the space is skipped with the pending
        // digits intact, and the symbol flushes them
        assert(is_whitespace_char(' '));
        assert(spec_tokenize_from(tail, pending) == spec_tokenize_from(
            tail.drop_first(),
            pending,
        ));
        assert(is_symbol_char(tail.drop_first()[0]));
        assert(spec_tokenize_from(tail, Seq::empty()) == spec_tokenize_from(
            tail.drop_first(),
            Seq::empty(),
        ));
        let symbol = tail.drop_first()[0];
        let rest = tail.drop_first().drop_first();
        assert(spec_tokenize_from(tail.drop_first(), pending) == spec_flush(pending) + seq![
            seq![symbol],
        ] + spec_tokenize_from(rest, Seq::empty()));
        assert(spec_tokenize_from(tail.drop_first(), Seq::empty()) == spec_flush(Seq::empty())
            + seq![seq![symbol]] + spec_tokenize_from(rest, Seq::empty()));
        assert(spec_tokenize_from(tail, pending) =~~= spec_flush(pending) + spec_tokenize_from(
            tail,
            Seq::empty(),
        ));
    }
}

/// A run of digits read with `pending` digits already in hand only lengthens
/// the pending literal.
proof fn lemma_digits_absorb(digits: Seq<char>, tail: Seq<char>, pending: Seq<char>)
    requires
        forall|k: int| 0 <= k < digits.len() ==> is_digit_char(#[trigger] digits[k]),
    ensures
        spec_tokenize_from(digits + tail, pending) == spec_tokenize_from(tail, pending + digits),
    decreases digits.len(),
{
    if digits.len() == 0 {
        assert(digits + tail =~= tail);
        assert(pending + digits =~= pending);
    } else {
        let c = digits[0];
        assert((digits + tail)[0] == c);
        assert(is_digit_char(c));
        assert(!is_whitespace_char(c));
        assert((digits + tail).drop_first() =~= digits.drop_first() + tail);
        lemma_digits_absorb(digits.drop_first(), tail, pending.push(c));
        assert(pending.push(c) + digits.drop_first() =~= pending + digits);
    }
}

/// Tokenizing the infix rendering of a well-formed tree followed by any
/// boundary tail yields the tree's token run followed by the tail's tokens.
proof fn lemma_tokenize_infix(e: ExprModel, tail: Seq<char>)
    requires
        e.well_formed(),
        is_literal_boundary(tail),
    ensures
        spec_tokenize_from(spec_infix(e) + tail, Seq::empty()) == spec_token_run(e)
            + spec_tokenize_from(tail, Seq::empty()),
    decreases e,
{
    match e {
        ExprModel::Num(text) => {
            lemma_digits_absorb(text, tail, Seq::empty());
            assert(Seq::<char>::empty() + text =~= text);
            lemma_flush_at_boundary(tail, text);
            assert(spec_flush(text) =~= spec_token_run(e));
            assert(spec_token_run(e) + spec_tokenize_from(tail, Seq::empty())
                =~~= spec_tokenize_from(spec_infix(e) + tail, Seq::empty()));
        },
        ExprModel::Bin { op, left, right } => {
            let infix_left = spec_infix(*left);
            let infix_right = spec_infix(*right);
            let run_left = spec_token_run(*left);
            let run_right = spec_token_run(*right);
            let s = spec_infix(e) + tail;
            let tail_left = seq![' '] + seq![op] + seq![' '] + infix_right + seq![')'] + tail;
            let tail_right = seq![')'] + tail;

            assert(is_op_char(op));
            assert(is_symbol_char(op));
            assert(is_symbol_char('('));
            assert(is_symbol_char(')'));
            assert(is_whitespace_char(' '));

            // the opening parenthesis is a token of its own
            assert(s[0] == '(');
            assert(s.drop_first() =~= infix_left + tail_left);
            assert(spec_tokenize_from(s, Seq::empty()) =~~= seq![seq!['(']] + spec_tokenize_from(
                infix_left + tail_left,
                Seq::empty(),
            ));

            // the left rendering, up to the space before the operator
            assert(tail_left[0] == ' ' && tail_left.len() >= 2 && tail_left[1] == op);
            assert(is_literal_boundary(tail_left));
            lemma_tokenize_infix(*left, tail_left);

            // space, operator token, space
            assert(tail_left.drop_first() =~= seq![op] + (seq![' '] + infix_right + seq![')']
                + tail));
            assert(spec_tokenize_from(tail_left, Seq::empty()) == spec_tokenize_from(
                tail_left.drop_first(),
                Seq::empty(),
            ));
            let after_op = seq![' '] + infix_right + seq![')'] + tail;
            assert((seq![op] + after_op)[0] == op);
            assert((seq![op] + after_op).drop_first() =~= after_op);
            assert(spec_tokenize_from(seq![op] + after_op, Seq::empty()) =~~= seq![seq![op]]
                + spec_tokenize_from(after_op, Seq::empty()));
            assert(after_op[0] == ' ');
            assert(after_op.drop_first() =~= infix_right + tail_right);
            assert(spec_tokenize_from(after_op, Seq::empty()) == spec_tokenize_from(
                infix_right + tail_right,
                Seq::empty(),
            ));

            // the right rendering, up to the closing parenthesis
            assert(is_literal_boundary(tail_right));
            lemma_tokenize_infix(*right, tail_right);

            // the closing parenthesis, then the tail
            assert(tail_right.drop_first() =~= tail);
            assert(spec_tokenize_from(tail_right, Seq::empty()) =~~= seq![seq![')']]
                + spec_tokenize_from(tail, Seq::empty()));

            assert(spec_tokenize_from(s, Seq::empty()) =~~= spec_token_run(e)
                + spec_tokenize_from(tail, Seq::empty()));
        },
    }
}

/// Every token run holds at least one token.
proof fn lemma_token_run_nonempty(e: ExprModel)
    ensures
        spec_token_run(e).len() >= 1,
{
    match e {
        ExprModel::Num(_) => {
        },
        ExprModel::Bin { .. } => {
        },
    }
}

/// Parsing at factor level from the start of a well-formed tree's token run
/// yields the tree itself and stops exactly at the run's end, whatever
/// tokens stand before or after: a token run opens with `(` or is one
/// number token, so it is one complete factor.
proof fn lemma_parse_token_run(e: ExprModel, pre: Seq<Seq<char>>, post: Seq<Seq<char>>)
    requires
        e.well_formed(),
    ensures
        spec_parse(pre + spec_token_run(e) + post, pre.len() as int, 0) == (ParseStep::Parsed {
            expr: e,
            next: pre.len() + spec_token_run(e).len() as int,
        }),
    decreases e,
{
    let toks = pre + spec_token_run(e) + post;
    let i = pre.len() as int;
    match e {
        ExprModel::Num(text) => {
            assert(toks[i] == text);
            assert(is_number_text(text));
            assert(is_digit_char(text[0]));
            assert(!is_open_paren_text(text));
            assert(i < toks.len());
        },
        ExprModel::Bin { op, left, right } => {
            let run = spec_token_run(e);
            let run_left = spec_token_run(*left);
            let run_right = spec_token_run(*right);
            lemma_token_run_nonempty(*left);
            lemma_token_run_nonempty(*right);
            let ln = run_left.len() as int;
            let rn = run_right.len() as int;
            let jl = i + 1 + ln;
            let jr = jl + 1 + rn;
            let bin = ExprModel::Bin { op, left, right };

            assert(is_op_char(op));
            assert((*left).well_formed() && (*right).well_formed());
            assert(run.len() == 3 + ln + rn);
            assert(toks.len() == pre.len() + run.len() + post.len());

            // the left operand's run, between `(` and the operator
            let pre_left = pre + seq![seq!['(']];
            let post_left = seq![seq![op]] + run_right + seq![seq![')']] + post;
            assert(toks =~= pre_left + run_left + post_left);
            lemma_parse_token_run(*left, pre_left, post_left);
            assert(spec_parse(toks, i + 1, 0) == (ParseStep::Parsed { expr: *left, next: jl }));

            // the right operand's run, between the operator and `)`
            let pre_right = pre_left + run_left + seq![seq![op]];
            let post_right = seq![seq![')']] + post;
            assert(toks =~= pre_right + run_right + post_right);
            assert(pre_right.len() == jl + 1);
            lemma_parse_token_run(*right, pre_right, post_right);
            assert(spec_parse(toks, jl + 1, 0) == (ParseStep::Parsed { expr: *right, next: jr }));

            // the three one-character tokens around the operand runs
            assert(toks[i] == seq!['(']);
            assert(toks[jl] == seq![op]);
            assert(toks[jr] == seq![')']);
            assert(is_open_paren_text(toks[i]));
            assert(is_close_paren_text(toks[jr]));
            assert(!is_level_op(')', 1) && !is_level_op(')', 2));
            assert(!chain_continues(toks, jr, 1) && !chain_continues(toks, jr, 2));

            if is_level_op(op, 1) {
                // a `*` or `/` chain folds at term level
                assert(chain_continues(toks, jl, 1));
                assert(spec_chain(toks, jl, 1, *left) == spec_chain(toks, jr, 1, bin));
                assert(spec_chain(toks, jr, 1, bin) == (ParseStep::Parsed { expr: bin, next: jr }));
                assert(spec_parse(toks, i + 1, 1) == (ParseStep::Parsed { expr: bin, next: jr }));
                assert(!chain_continues(toks, jr, 2));
                assert(spec_chain(toks, jr, 2, bin) == (ParseStep::Parsed { expr: bin, next: jr }));
                assert(spec_parse(toks, i + 1, 2) == (ParseStep::Parsed { expr: bin, next: jr }));
            } else {
                // a `+` or `-` chain folds at expression level
                assert(op == '+' || op == '-');
                assert(!chain_continues(toks, jl, 1));
                assert(spec_chain(toks, jl, 1, *left) == (ParseStep::Parsed {
                    expr: *left,
                    next: jl,
                }));
                assert(spec_parse(toks, i + 1, 1) == (ParseStep::Parsed { expr: *left, next: jl }));
                assert(chain_continues(toks, jl, 2));
                assert(spec_chain(toks, jr, 1, *right) == (ParseStep::Parsed {
                    expr: *right,
                    next: jr,
                }));
                assert(spec_parse(toks, jl + 1, 1) == (ParseStep::Parsed {
                    expr: *right,
                    next: jr,
                }));
                assert(spec_chain(toks, jl, 2, *left) == spec_chain(toks, jr, 2, bin));
                assert(!chain_continues(toks, jr, 2));
                assert(spec_chain(toks, jr, 2, bin) == (ParseStep::Parsed { expr: bin, next: jr }));
                assert(spec_parse(toks, i + 1, 2) == (ParseStep::Parsed { expr: bin, next: jr }));
            }

            // the factor wraps it up by consuming the closing parenthesis
            assert(jr < toks.len());
            assert(spec_parse(toks, i, 0) == (ParseStep::Parsed { expr: bin, next: jr + 1 }));
        },
    }
}

/// Every tree a parsing step yields is well formed: each number leaf comes
/// from a number token and each operator from one of the four operator
/// characters.
proof fn lemma_parse_step_well_formed(toks: Seq<Seq<char>>, i: int, level: int)
    requires
        0 <= i <= toks.len(),
        0 <= level <= 2,
    ensures
        spec_parse(toks, i, level) matches ParseStep::Parsed { expr, .. } ==> expr.well_formed(),
    decreases toks.len() - i, level, 0int,
{
    if level == 0 {
        if i < toks.len() && is_open_paren_text(toks[i]) {
            lemma_parse_step_well_formed(toks, i + 1, 2);
        }
    } else {
        lemma_parse_step_well_formed(toks, i, level - 1);
        match spec_parse(toks, i, level - 1) {
            ParseStep::Parsed { expr, next } => {
                if i < next <= toks.len() {
                    lemma_chain_well_formed(toks, next, level, expr);
                }
            },
            ParseStep::Failed { .. } => {
            },
        }
    }
}

/// The chain of one level keeps well-formedness: it only folds well-formed
/// operands under the level's own operators.
proof fn lemma_chain_well_formed(toks: Seq<Seq<char>>, j: int, level: int, acc: ExprModel)
    requires
        0 <= j <= toks.len(),
        1 <= level <= 2,
        acc.well_formed(),
    ensures
        spec_chain(toks, j, level, acc) matches ParseStep::Parsed { expr, .. }
            ==> expr.well_formed(),
    decreases toks.len() - j, level, 1int,
{
    if chain_continues(toks, j, level) {
        let op = toks[j][0];
        assert(is_op_char(op));
        lemma_parse_step_well_formed(toks, j + 1, level - 1);
        match spec_parse(toks, j + 1, level - 1) {
            ParseStep::Parsed { expr, next } => {
                if j + 1 < next <= toks.len() {
                    let folded = ExprModel::Bin { op, left: Box::new(acc), right: Box::new(expr) };
                    assert(folded.well_formed());
                    lemma_chain_well_formed(toks, next, level, folded);
                }
            },
            ParseStep::Failed { .. } => {
            },
        }
    }
}

/// The construction invariant of parsed trees: whenever parsing succeeds,
/// every operator of the tree is one of `+ - * /` and every number leaf is a
/// nonempty run of digits.
pub proof fn lemma_parse_expression_well_formed(s: Seq<char>)
    ensures
        spec_parse_expression(s) matches Ok(e) ==> e.well_formed(),
{
    lemma_parse_step_well_formed(spec_tokenize(s), 0, 2);
}

/// Rendering a well-formed tree to its fully parenthesized infix form and
/// parsing that text gives the very same tree back.
pub proof fn lemma_infix_reparse(e: ExprModel)
    requires
        e.well_formed(),
    ensures
        spec_parse_expression(spec_infix(e)) == Ok::<ExprModel, ParseErrorModel>(e),
{
    // tokenizing the rendering gives exactly the token run
    let empty_tail = Seq::<char>::empty();
    lemma_tokenize_infix(e, empty_tail);
    assert(spec_infix(e) + empty_tail =~= spec_infix(e));
    assert(spec_tokenize_from(empty_tail, Seq::empty()) =~~= Seq::<Seq<char>>::empty());
    assert(spec_tokenize(spec_infix(e)) =~~= spec_token_run(e));

    // the token run parses as one factor that consumes every token
    let toks = spec_token_run(e);
    lemma_parse_token_run(e, Seq::empty(), Seq::empty());
    assert(Seq::<Seq<char>>::empty() + toks + Seq::<Seq<char>>::empty() =~= toks);
    let n = toks.len() as int;
    assert(spec_parse(toks, 0, 0) == (ParseStep::Parsed { expr: e, next: n }));

    // with no token left, the term and expression chains stop at once
    lemma_token_run_nonempty(e);
    assert(!chain_continues(toks, n, 1) && !chain_continues(toks, n, 2));
    assert(spec_chain(toks, n, 1, e) == (ParseStep::Parsed { expr: e, next: n }));
    assert(spec_parse(toks, 0, 1) == (ParseStep::Parsed { expr: e, next: n }));
    assert(spec_chain(toks, n, 2, e) == (ParseStep::Parsed { expr: e, next: n }));
    assert(spec_parse(toks, 0, 2) == (ParseStep::Parsed { expr: e, next: n }));
}

/// The round trip: when text parses to a tree, rendering the tree to infix
/// text and parsing that text returns the very same tree — so the rendering
/// loses nothing, and both trees evaluate alike under any evaluator.
pub proof fn lemma_parse_render_reparse(s: Seq<char>)
    ensures
        spec_parse_expression(s) matches Ok(e) ==> spec_parse_expression(spec_infix(e)) == Ok::<
            ExprModel,
            ParseErrorModel,
        >(e),
{
    lemma_parse_expression_well_formed(s);
    if let Ok(e) = spec_parse_expression(s) {
        lemma_infix_reparse(e);
    }
}

} // verus!
