//! The three stages in a row: source text to tokens, tokens to a tree, the
//! tree to a value. The first error of any stage ends the run.

use crate::error::LoxError;
use crate::grammar::{
    at_end, parse_expression, parse_primary, parse_rest, parse_tier, parse_tier_similar,
    parse_unary, similar_parsed, top_tier, ExprView,
};
use crate::interpreter::{result_view, supplies, Interpreter};
use crate::lexis::{
    count, count_absent, is_numeral, is_word_char, is_word_start, lex, run_len_is, token_at,
    token_at_bounds, trivia_len, trivia_len_bounds, word_type,
};
use crate::number::ArithOp;
use crate::parser::{Expr, LoxParser};
use crate::scanner::{reads, Scanner};
use crate::semantics::{
    alike, alike_chain, evaluate, evaluate_similar, identifier_message, is_value, Floats,
};
use crate::token::{TokenType, TokenTypeView, TokenView};
use vstd::prelude::*;

verus! {

/// What `source` evaluates to: the value of the first expression in it, or
/// the message of the first error of scanning, parsing or evaluation.
pub open spec fn run(source: Seq<char>, value: spec_fn(Seq<char>) -> u64, floats: Floats) -> Result<
    ExprView,
    Seq<char>,
> {
    match lex(source, 0, 1, value) {
        Err(message) => Err(message),
        Ok(tokens) => match parse_expression(tokens, 0).result {
            Err(message) => Err(message),
            Ok(tree) => evaluate(tree, floats),
        },
    }
}

/// Scans, parses and evaluates `input`. `to_bits` reads a numeral, `arith`
/// computes the four arithmetic operations, and `render` writes a number
/// in decimal, all on bit patterns.
///
/// Whatever the three return, the run fails exactly where `run` does, and
/// otherwise gives a value of the kind that `run` gives. Where they are
/// functions, the outcome is that of `run` with these functions.
pub fn interpret_input<P: Fn(String) -> u64, A: Fn(ArithOp, u64, u64) -> u64, R: Fn(u64) -> String>(
    input: &str,
    to_bits: &P,
    arith: &A,
    render: &R,
) -> (r: Result<Expr, LoxError>)
    requires
        input@.len() < usize::MAX,
        forall|numeral: String| is_numeral(numeral@) ==> to_bits.requires((numeral,)),
        forall|op: ArithOp, a: u64, b: u64| arith.requires((op, a, b)),
        forall|bits: u64| render.requires((bits,)),
    ensures
        r is Ok ==> is_value(r->Ok_0@),
        forall|value: spec_fn(Seq<char>) -> u64, floats: Floats|
            alike(result_view(r), #[trigger] run(input@, value, floats)),
        forall|value: spec_fn(Seq<char>) -> u64, floats: Floats|
            #![trigger reads(to_bits, value), supplies(arith, render, floats)]
            reads(to_bits, value) && supplies(arith, render, floats) ==> result_view(r) == run(
                input@,
                value,
                floats,
            ),
{
    let mut scanner = Scanner::new(input);
    let mut parser = match scanner.scan_tokens(to_bits) {
        Ok(tokens) => LoxParser::new(tokens),
        Err(error) => {
            return Err(error);
        },
    };
    let ghost tokens = parser.tokens();
    assert(tokens == scanner.tokens());
    assert(scanner.tokens().skip(0) =~= scanner.tokens());
    let parsed = parser.parse();
    proof {
        assert forall|value: spec_fn(Seq<char>) -> u64|
            (#[trigger] lex(input@, 0, 1, value)) is Ok && similar_parsed(
                parse_expression(tokens, 0),
                parse_expression(lex(input@, 0, 1, value)->Ok_0, 0),
            ) by {
            parse_tier_similar(tokens, lex(input@, 0, 1, value)->Ok_0, 0, top_tier());
        }
    }
    let tree = match parsed {
        Ok(tree) => tree,
        Err(error) => {
            proof {
                assert forall|value: spec_fn(Seq<char>) -> u64, floats: Floats|
                    alike(Err(error@), #[trigger] run(input@, value, floats)) by {
                    assert(lex(input@, 0, 1, value) is Ok);
                }
            }
            return Err(error);
        },
    };
    let interp = Interpreter::new();
    let r = interp.interpret(&tree, arith, render);
    proof {
        assert forall|value: spec_fn(Seq<char>) -> u64, floats: Floats|
            alike(result_view(r), #[trigger] run(input@, value, floats)) by {
            assert(lex(input@, 0, 1, value) is Ok);
            let expected = parse_expression(lex(input@, 0, 1, value)->Ok_0, 0).result->Ok_0;
            evaluate_similar(tree@, expected, floats, floats);
            alike_chain(result_view(r), evaluate(tree@, floats), evaluate(expected, floats));
        }
        assert forall|value: spec_fn(Seq<char>) -> u64, floats: Floats|
            #![trigger reads(to_bits, value), supplies(arith, render, floats)]
            reads(to_bits, value) && supplies(arith, render, floats) implies result_view(r) == run(
            input@,
            value,
            floats,
        ) by {
            assert(lex(input@, 0, 1, value) is Ok);
        }
    }
    r
}

/// A successful scan ends with the end-of-input token, and holds no other.
pub proof fn lex_ends_with_one_eof(
    text: Seq<char>,
    pos: int,
    line: nat,
    value: spec_fn(Seq<char>) -> u64,
)
    requires
        0 <= pos <= text.len(),
        lex(text, pos, line, value) is Ok,
    ensures
        lex(text, pos, line, value)->Ok_0.len() >= 1,
        lex(text, pos, line, value)->Ok_0.last().typ == TokenTypeView::Fixed(TokenType::Eof),
        forall|i: int|
            0 <= i < lex(text, pos, line, value)->Ok_0.len() - 1 ==> (#[trigger] lex(
                text,
                pos,
                line,
                value,
            )->Ok_0[i]).typ != TokenTypeView::Fixed(TokenType::Eof),
    decreases text.len() - pos,
{
    let p = pos + trivia_len(text, pos);
    let l = line + count(text.subrange(pos, p), '\n');
    trivia_len_bounds(text, pos);
    if p < text.len() {
        token_at_bounds(text, p, l, value);
        let typ = token_at(text, p, l, value)->Ok_0.0;
        let width = token_at(text, p, l, value)->Ok_0.1;
        let after = l + count(text.subrange(p, p + width), '\n');
        lex_ends_with_one_eof(text, p + width, after, value);
        let rest = lex(text, p + width, after, value)->Ok_0;
        let all = lex(text, pos, line, value)->Ok_0;
        assert(all =~= seq![TokenView { typ, line: l }] + rest);
        assert(all.last() == rest.last());
        assert forall|i: int| 0 <= i < all.len() - 1 implies (#[trigger] all[i]).typ
            != TokenTypeView::Fixed(TokenType::Eof) by {
            if i > 0 {
                assert(all[i] == rest[i - 1]);
            }
        }
    }
}

/// Lines count from the line the scan starts on and never go back: every
/// token is on a line no earlier than that of the token before it.
pub proof fn lex_lines_never_decrease(
    text: Seq<char>,
    pos: int,
    line: nat,
    value: spec_fn(Seq<char>) -> u64,
)
    requires
        0 <= pos <= text.len(),
        lex(text, pos, line, value) is Ok,
    ensures
        forall|i: int|
            0 <= i < lex(text, pos, line, value)->Ok_0.len() ==> line <= (#[trigger] lex(
                text,
                pos,
                line,
                value,
            )->Ok_0[i]).line,
        forall|i: int, j: int|
            0 <= i <= j < lex(text, pos, line, value)->Ok_0.len() ==> (#[trigger] lex(
                text,
                pos,
                line,
                value,
            )->Ok_0[i]).line <= (#[trigger] lex(text, pos, line, value)->Ok_0[j]).line,
    decreases text.len() - pos,
{
    let p = pos + trivia_len(text, pos);
    let l = line + count(text.subrange(pos, p), '\n');
    trivia_len_bounds(text, pos);
    if p < text.len() {
        token_at_bounds(text, p, l, value);
        let typ = token_at(text, p, l, value)->Ok_0.0;
        let width = token_at(text, p, l, value)->Ok_0.1;
        let after = l + count(text.subrange(p, p + width), '\n');
        lex_lines_never_decrease(text, p + width, after, value);
        let rest = lex(text, p + width, after, value)->Ok_0;
        let all = lex(text, pos, line, value)->Ok_0;
        assert(all =~= seq![TokenView { typ, line: l }] + rest);
        assert forall|i: int| 0 <= i < all.len() implies line <= (#[trigger] all[i]).line by {
            if i > 0 {
                assert(all[i] == rest[i - 1]);
            }
        }
        assert forall|i: int, j: int| 0 <= i <= j < all.len() implies (#[trigger] all[i]).line <= (
        #[trigger] all[j]).line by {
            if i > 0 {
                assert(all[i] == rest[i - 1]);
                assert(all[j] == rest[j - 1]);
            } else if j > 0 {
                assert(all[j] == rest[j - 1]);
            }
        }
    }
}

/// A name that is no keyword scans as one identifier and parses as an
/// identifier expression, and then fails to evaluate: there are no
/// variables.
pub proof fn identifier_scans_parses_and_fails(
    name: Seq<char>,
    value: spec_fn(Seq<char>) -> u64,
    floats: Floats,
)
    requires
        name.len() > 0,
        is_word_start(name[0]),
        forall|i: int| 0 <= i < name.len() ==> is_word_char(#[trigger] name[i]),
        word_type(name) == TokenTypeView::Identifier(name),
    ensures
        lex(name, 0, 1, value) == Ok::<Seq<TokenView>, Seq<char>>(
            seq![
                TokenView { typ: TokenTypeView::Identifier(name), line: 1 },
                TokenView { typ: TokenTypeView::Fixed(TokenType::Eof), line: 1 },
            ],
        ),
        parse_expression(lex(name, 0, 1, value)->Ok_0, 0).result == Ok::<ExprView, Seq<char>>(
            ExprView::Identifier(TokenView { typ: TokenTypeView::Identifier(name), line: 1 }),
        ),
        run(name, value, floats) == Err::<ExprView, Seq<char>>(identifier_message()),
{
    let keep = |c: char| is_word_char(c);
    let n = name.len();
    let token = TokenView { typ: TokenTypeView::Identifier(name), line: 1 };
    let eof = TokenView { typ: TokenTypeView::Fixed(TokenType::Eof), line: 1 };
    assert(trivia_len(name, 0) == 0);
    assert(name.subrange(0, 0) =~= Seq::<char>::empty());
    run_len_is(name, 1, (n - 1) as nat, keep);
    assert(name.subrange(0, n as int) =~= name);
    assert(token_at(name, 0, 1, value) == Ok::<(TokenTypeView, nat), Seq<char>>(
        (TokenTypeView::Identifier(name), n),
    ));
    count_absent(name, '\n');
    assert(trivia_len(name, n as int) == 0);
    assert(name.subrange(n as int, n as int) =~= Seq::<char>::empty());
    assert(lex(name, n as int, 1, value) == Ok::<Seq<TokenView>, Seq<char>>(seq![eof]));
    let tokens = seq![token, eof];
    assert(seq![token] + seq![eof] =~= tokens);
    assert(lex(name, 0, 1, value) == Ok::<Seq<TokenView>, Seq<char>>(tokens));
    assert(!at_end(tokens, 0));
    assert(at_end(tokens, 1));
    assert(parse_primary(tokens, 0).result == Ok::<ExprView, Seq<char>>(
        ExprView::Identifier(token),
    ));
    assert(parse_unary(tokens, 0) == parse_primary(tokens, 0));
    assert(parse_tier(tokens, 0, 0) == parse_unary(tokens, 0));
    assert(parse_rest(tokens, 1, 1, ExprView::Identifier(token)).result == Ok::<
        ExprView,
        Seq<char>,
    >(ExprView::Identifier(token)));
    assert(parse_tier(tokens, 0, 1).result == Ok::<ExprView, Seq<char>>(
        ExprView::Identifier(token),
    ));
    assert(parse_rest(tokens, 1, 2, ExprView::Identifier(token)).result == Ok::<
        ExprView,
        Seq<char>,
    >(ExprView::Identifier(token)));
    assert(parse_tier(tokens, 0, 2).result == Ok::<ExprView, Seq<char>>(
        ExprView::Identifier(token),
    ));
    assert(parse_rest(tokens, 1, 3, ExprView::Identifier(token)).result == Ok::<
        ExprView,
        Seq<char>,
    >(ExprView::Identifier(token)));
    assert(parse_tier(tokens, 0, 3).result == Ok::<ExprView, Seq<char>>(
        ExprView::Identifier(token),
    ));
    assert(parse_rest(tokens, 1, 4, ExprView::Identifier(token)).result == Ok::<
        ExprView,
        Seq<char>,
    >(ExprView::Identifier(token)));
    assert(parse_tier(tokens, 0, 4).result == Ok::<ExprView, Seq<char>>(
        ExprView::Identifier(token),
    ));
}

} // verus!
