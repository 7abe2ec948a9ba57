//! The tokenizer: raw text to a flat sequence of tokens.
//!
//! Whitespace is skipped and never produces a token; in particular it does
//! not end a pending number literal, so `1 2` yields the single token `12`.
//! Digits accumulate into the pending literal. Any other character first
//! flushes the pending literal, then stands as a single-character token of
//! its own. Tokenization always succeeds; malformed input surfaces later as
//! a parse error.

use vstd::prelude::*;
use vstd::string::StrSliceExecFns;
use vstd::string::StringExecFns;

use crate::ast::ParseError;
use crate::text::is_digit_char;
use crate::text::is_whitespace_char;
use crate::text::is_digit;
use crate::text::is_whitespace;

verus! {

/// The pending number literal, as the token it yields: no token when no
/// digits are pending, else one number token.
pub open spec fn spec_flush(pending: Seq<char>) -> Seq<Seq<char>> {
    if pending.len() == 0 {
        Seq::empty()
    } else {
        seq![pending]
    }
}

/// The tokens of `s` when the digits `pending` have been read just before
/// `s` and every earlier token has already been emitted.
pub open spec fn spec_tokenize_from(s: Seq<char>, pending: Seq<char>) -> Seq<Seq<char>>
    decreases s.len(),
{
    if s.len() == 0 {
        spec_flush(pending)
    } else {
        let c = s[0];
        if is_whitespace_char(c) {
            spec_tokenize_from(s.drop_first(), pending)
        } else if is_digit_char(c) {
            spec_tokenize_from(s.drop_first(), pending.push(c))
        } else {
            spec_flush(pending) + seq![seq![c]] + spec_tokenize_from(s.drop_first(), Seq::empty())
        }
    }
}

/// The token sequence of the text `s`.
pub open spec fn spec_tokenize(s: Seq<char>) -> Seq<Seq<char>> {
    spec_tokenize_from(s, Seq::empty())
}

/// Relies on `String::push`: appends exactly the one character to the end of
/// the string.
#[verifier::external_body]
pub(crate) fn push_char(s: &mut String, c: char)
    ensures
        final(s)@ == old(s)@.push(c),
{
    s.push(c);
}

/// Scans `input` into its tokens, left to right. Never fails: the result is
/// always `Ok`, and it holds exactly the tokens of `spec_tokenize(input@)`.
pub fn tokenize(input: &str) -> (r: Result<Vec<String>, ParseError>)
    ensures
        (match r {
            Ok(tokens) => tokens.deep_view() == spec_tokenize(input@),
            Err(_) => false,
        }),
{
    let len = input.unicode_len();
    let mut tokens: Vec<String> = Vec::new();
    let mut number = String::new();
    let mut i: usize = 0;
    proof {
        assert(input@.skip(0) =~= input@);
        assert(tokens.deep_view() =~~= Seq::<Seq<char>>::empty());
        assert(Seq::<Seq<char>>::empty() + spec_tokenize_from(input@, number@)
            =~~= spec_tokenize_from(input@, number@));
    }
    while i < len
        invariant
            i <= len,
            len == input@.len(),
            spec_tokenize(input@) == tokens.deep_view() + spec_tokenize_from(
                input@.skip(i as int),
                number@,
            ),
        decreases len - i,
    {
        let ghost prev_dv = tokens.deep_view();
        let ghost prev_number = number@;
        let ghost rest = input@.skip(i as int);
        proof {
            assert(rest[0] == input@[i as int]);
            assert(rest.drop_first() =~= input@.skip(i as int + 1));
        }
        let c = input.get_char(i);
        if is_whitespace(c) {
            // the pending literal survives whitespace
        } else if is_digit(c) {
            push_char(&mut number, c);
        } else {
            if number.as_str().unicode_len() > 0 {
                tokens.push(number);
                number = String::new();
            }
            let mut symbol = String::new();
            push_char(&mut symbol, c);
            proof {
                assert(symbol@ =~= seq![c]);
            }
            tokens.push(symbol);
            proof {
                assert(tokens.deep_view() =~~= prev_dv + spec_flush(prev_number) + seq![seq![c]]);
                assert(prev_dv + (spec_flush(prev_number) + seq![seq![c]] + spec_tokenize_from(
                    rest.drop_first(),
                    Seq::<char>::empty(),
                )) =~~= (prev_dv + spec_flush(prev_number) + seq![seq![c]]) + spec_tokenize_from(
                    rest.drop_first(),
                    Seq::<char>::empty(),
                ));
                assert(number@ =~= Seq::<char>::empty());
            }
        }
        i += 1;
    }
    proof {
        assert(input@.skip(len as int) =~= Seq::<char>::empty());
    }
    let ghost end_dv = tokens.deep_view();
    let ghost end_number = number@;
    if number.as_str().unicode_len() > 0 {
        tokens.push(number);
    }
    proof {
        assert(tokens.deep_view() =~~= end_dv + spec_flush(end_number));
    }
    Ok(tokens)
}

} // verus!
