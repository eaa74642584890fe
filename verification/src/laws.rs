//! Properties of the lexer and of the grammar that hold for all inputs.
use vstd::prelude::*;
use crate::grammar;
use crate::grammar::{PRes, Toks};
use crate::lexer::{
    C1Token,
    CharClass,
    comment_close,
    in_class,
    is_blank,
    lex,
    lex_from,
    lemma_newlines_step,
    line_at,
    run_end,
};

verus! {

/// The tokens of `t` from `pos` on spell `ks`.
pub open spec fn spells_at(t: Toks, pos: int, ks: Seq<C1Token>) -> bool {
    &&& pos + ks.len() <= t.len()
    &&& forall|j: int| 0 <= j < ks.len() ==> #[trigger] t[pos + j].0 == ks[j]
}

/// Checking a sequence of tokens succeeds exactly when the input continues
/// with those tokens, and then it consumes exactly them; whatever the
/// outcome, it never moves past them.
pub proof fn lemma_check_tokens_exact(t: Toks, pos: int, ks: Seq<C1Token>, msg: Seq<char>)
    requires
        0 <= pos <= t.len(),
    ensures
        grammar::check_tokens(t, pos, ks, msg) == if spells_at(t, pos, ks) {
            Ok::<int, (Seq<char>, int)>(pos + ks.len())
        } else {
            Err((msg, grammar::eat_matching(t, pos, ks).0))
        },
        pos <= grammar::eat_matching(t, pos, ks).0 <= pos + ks.len(),
        grammar::eat_matching(t, pos, ks).0 <= t.len(),
    decreases ks.len(),
{
    if ks.len() > 0 {
        let hit = crate::lexer::cur(t, pos) == Some(ks[0]);
        let next = if hit {
            pos + 1
        } else {
            pos
        };
        lemma_check_tokens_exact(t, next, ks.drop_first(), msg);
        if hit {
            if spells_at(t, pos + 1, ks.drop_first()) {
                assert forall|j: int| 0 <= j < ks.len() implies #[trigger] t[pos + j].0 == ks[j] by {
                    if j > 0 {
                        assert(t[pos + 1 + (j - 1)].0 == ks.drop_first()[j - 1]);
                    }
                }
            } else {
                if spells_at(t, pos, ks) {
                    assert forall|j: int| 0 <= j < ks.drop_first().len() implies #[trigger] t[pos
                        + 1 + j].0 == ks.drop_first()[j] by {
                        assert(t[pos + (j + 1)].0 == ks[j + 1]);
                    }
                }
            }
        } else {
            if spells_at(t, pos, ks) {
                assert(t[pos + 0].0 == ks[0]);
            }
        }
    }
}

/// `run_end` stops at the first character outside the class; over a
/// stretch that lies wholly in the class it reaches the end of the text.
proof fn lemma_run_to_end(s: Seq<char>, i: int, class: CharClass)
    requires
        0 <= i <= s.len(),
        forall|j: int| i <= j < s.len() ==> in_class(class, #[trigger] s[j]),
    ensures
        run_end(s, i, class) == s.len(),
    decreases s.len() - i,
{
    if i < s.len() {
        lemma_run_to_end(s, i + 1, class);
    }
}

proof fn lemma_blank_suffix(s: Seq<char>, i: int)
    requires
        0 <= i <= s.len(),
        forall|j: int| 0 <= j < s.len() ==> is_blank(#[trigger] s[j]),
    ensures
        lex_from(s, i) == Seq::<(C1Token, nat)>::empty(),
    decreases s.len() - i,
{
    if i < s.len() {
        assert(is_blank(s[i]));
        lemma_blank_suffix(s, i + 1);
    }
}

proof fn lemma_run_end_bounds(s: Seq<char>, i: int, class: CharClass)
    requires
        0 <= i <= s.len(),
    ensures
        i <= run_end(s, i, class) <= s.len(),
    decreases s.len() - i,
{
    if i < s.len() {
        lemma_run_end_bounds(s, i + 1, class);
    }
}

proof fn lemma_comment_close_bounds(s: Seq<char>, j: int)
    requires
        0 <= j,
    ensures
        comment_close(s, j) matches Some(e) ==> j + 2 <= e <= s.len(),
    decreases s.len() - j,
{
    if j + 1 < s.len() {
        lemma_comment_close_bounds(s, j + 1);
    }
}

proof fn lemma_exponent_bounds(s: Seq<char>, j: int)
    requires
        0 <= j <= s.len(),
    ensures
        j <= crate::lexer::exponent_end(s, j) <= s.len(),
{
    if j + 1 < s.len() {
        lemma_run_end_bounds(s, j + 1, CharClass::Digit);
    }
    if j + 2 < s.len() {
        lemma_run_end_bounds(s, j + 2, CharClass::Digit);
    }
}

/// Scanning never runs backwards nor off the text: what is skipped at `i`
/// ends within the text, and the token that starts at `i` is at least one
/// character long and ends within the text. So the fall-back branches of
/// `lex_from` are never taken.
pub proof fn lemma_scanning_moves_forward(s: Seq<char>, i: int)
    requires
        0 <= i < s.len(),
    ensures
        i <= crate::lexer::skip_end(s, i) <= s.len(),
        i < crate::lexer::token_at(s, i).1 <= s.len(),
{
    if i + 1 < s.len() {
        lemma_run_end_bounds(s, i + 2, CharClass::LineText);
        lemma_comment_close_bounds(s, i + 2);
    }
    lemma_run_end_bounds(s, i + 1, CharClass::Word);
    lemma_run_end_bounds(s, i + 1, CharClass::StringText);
    lemma_run_end_bounds(s, i + 1, CharClass::Digit);
    let d = run_end(s, i, CharClass::Digit);
    lemma_exponent_bounds(s, d);
    if d + 1 < s.len() {
        lemma_run_end_bounds(s, d + 1, CharClass::Digit);
        lemma_exponent_bounds(s, run_end(s, d + 1, CharClass::Digit));
    }
}

/// A text made only of blanks (spaces, tabs, line breaks, carriage
/// returns, form feeds) has no tokens.
pub proof fn lemma_blanks_have_no_tokens(s: Seq<char>)
    requires
        forall|j: int| 0 <= j < s.len() ==> is_blank(#[trigger] s[j]),
    ensures
        lex(s) == Seq::<(C1Token, nat)>::empty(),
{
    lemma_blank_suffix(s, 0);
}

/// A text that is one line comment, `//` up to the end without a line
/// break, has no tokens.
pub proof fn lemma_line_comment_has_no_tokens(s: Seq<char>)
    requires
        s.len() >= 2,
        s[0] == '/',
        s[1] == '/',
        forall|j: int| 0 <= j < s.len() ==> #[trigger] s[j] != '\n',
    ensures
        lex(s) == Seq::<(C1Token, nat)>::empty(),
{
    assert forall|j: int| 2 <= j < s.len() implies in_class(CharClass::LineText, #[trigger] s[j]) by {
        assert(s[j] != '\n');
    }
    lemma_run_to_end(s, 2, CharClass::LineText);
    assert(lex_from(s, s.len() as int) == Seq::<(C1Token, nat)>::empty());
    assert(crate::lexer::skip_end(s, 0) == s.len());
}

proof fn lemma_comment_close_at_end(s: Seq<char>, j: int)
    requires
        2 <= j <= s.len() - 2,
        s[s.len() - 2] == '*',
        s[s.len() - 1] == '/',
        forall|k: int| 2 <= k < s.len() - 2 ==> !(#[trigger] s[k] == '*' && s[k + 1] == '/'),
    ensures
        comment_close(s, j) == Some(s.len() as int),
    decreases s.len() - j,
{
    if j < s.len() - 2 {
        lemma_comment_close_at_end(s, j + 1);
    }
}

/// A text that is one block comment, `/*` up to the first `*/` at its very
/// end, has no tokens; line breaks inside it are allowed.
pub proof fn lemma_block_comment_has_no_tokens(s: Seq<char>)
    requires
        s.len() >= 4,
        s[0] == '/',
        s[1] == '*',
        s[s.len() - 2] == '*',
        s[s.len() - 1] == '/',
        forall|k: int| 2 <= k < s.len() - 2 ==> !(#[trigger] s[k] == '*' && s[k + 1] == '/'),
    ensures
        lex(s) == Seq::<(C1Token, nat)>::empty(),
{
    lemma_comment_close_at_end(s, 2);
    assert(lex_from(s, s.len() as int) == Seq::<(C1Token, nat)>::empty());
    assert(crate::lexer::skip_end(s, 0) == s.len());
}

/// Line numbers grow with the position in the text.
pub proof fn lemma_line_at_monotone(s: Seq<char>, i: int, k: int)
    requires
        0 <= i <= k <= s.len(),
    ensures
        line_at(s, i) <= line_at(s, k),
    decreases k - i,
{
    if i < k {
        lemma_newlines_step(s, k - 1);
        lemma_line_at_monotone(s, i, k - 1);
    }
}

/// The lines of the tokens never decrease along the stream.
pub open spec fn lines_sorted(ts: Seq<(C1Token, nat)>) -> bool {
    forall|a: int, b: int| 0 <= a <= b < ts.len() ==> #[trigger] ts[a].1 <= #[trigger] ts[b].1
}

proof fn lemma_lines_from(s: Seq<char>, i: int)
    requires
        0 <= i <= s.len(),
    ensures
        lines_sorted(lex_from(s, i)),
        forall|a: int| 0 <= a < lex_from(s, i).len() ==> line_at(s, i) <= #[trigger] lex_from(s, i)[a].1,
    decreases s.len() - i,
{
    if i < s.len() {
        let k = crate::lexer::skip_end(s, i);
        if k != i {
            if i < k <= s.len() {
                lemma_lines_from(s, k);
                lemma_line_at_monotone(s, i, k);
            }
        } else {
            let r = crate::lexer::token_at(s, i);
            if i < r.1 <= s.len() {
                lemma_lines_from(s, r.1);
                lemma_line_at_monotone(s, i, r.1);
                let head = seq![(r.0, line_at(s, i))];
                let tail = lex_from(s, r.1);
                assert(lex_from(s, i) == head + tail);
                assert forall|a: int| 0 <= a < (head + tail).len() implies line_at(s, i) <= #[trigger] (
                head + tail)[a].1 by {
                    if a > 0 {
                        assert((head + tail)[a] == tail[a - 1]);
                    }
                }
                assert forall|a: int, b: int| 0 <= a <= b < (head + tail).len() implies #[trigger] (head
                    + tail)[a].1 <= #[trigger] (head + tail)[b].1 by {
                    if a > 0 {
                        assert((head + tail)[a] == tail[a - 1]);
                    }
                    if b > 0 {
                        assert((head + tail)[b] == tail[b - 1]);
                    }
                }
            }
        }
    }
}

/// Every token lies on line 1 or later, and the lines of the tokens never
/// decrease along the stream.
pub proof fn lemma_token_lines_ordered(s: Seq<char>)
    ensures
        lines_sorted(lex(s)),
        forall|a: int| 0 <= a < lex(s).len() ==> 1 <= #[trigger] lex(s)[a].1,
{
    lemma_lines_from(s, 0);
}

/// A text without tokens (only blanks and comments, or nothing) is a valid,
/// empty program.
pub proof fn lemma_no_tokens_is_program(s: Seq<char>)
    requires
        lex(s).len() == 0,
    ensures
        grammar::program(lex(s), 0) == Ok::<int, (Seq<char>, int)>(0),
{
}

// ---------------------------------------------------------------------
// Every rule only moves forward
// ---------------------------------------------------------------------

/// A step ends in `[pos, t.len()]`, whether it succeeds or fails.
pub open spec fn moves(t: Toks, pos: int, r: PRes) -> bool {
    match r {
        Ok(p) => pos <= p <= t.len(),
        Err(e) => pos <= e.1 <= t.len(),
    }
}

/// As `moves`, and a successful step ends in `(pos, t.len()]`: it consumed
/// a token.
pub open spec fn advances(t: Toks, pos: int, r: PRes) -> bool {
    match r {
        Ok(p) => pos < p <= t.len(),
        Err(e) => pos <= e.1 <= t.len(),
    }
}

proof fn lemma_expect(t: Toks, pos: int, k: C1Token, text: Seq<char>)
    requires
        0 <= pos <= t.len(),
    ensures
        advances(t, pos, grammar::expect(t, pos, k, text)),
{
}

proof fn lemma_expect_all(t: Toks, pos: int, ks: Seq<C1Token>, text: Seq<char>)
    requires
        0 <= pos <= t.len(),
        ks.len() > 0,
    ensures
        advances(t, pos, grammar::expect_all(t, pos, ks, text)),
{
    lemma_check_tokens_exact(t, pos, ks, grammar::message(t, pos, text));
}

pub(crate) proof fn lemma_program(t: Toks, pos: int)
    requires
        0 <= pos <= t.len(),
    ensures
        moves(t, pos, grammar::program(t, pos)),
    decreases t.len() - pos,
{
    if !grammar::at_end(t, pos) && grammar::at_any(t, pos, grammar::type_keywords()) {
        lemma_functiondefinition(t, pos);
        if let Ok(p) = grammar::functiondefinition(t, pos) {
            if grammar::beyond(t, pos, p) {
                lemma_program(t, p);
            }
        }
    }
}

pub(crate) proof fn lemma_functiondefinition(t: Toks, pos: int)
    requires
        0 <= pos <= t.len(),
    ensures
        advances(t, pos, grammar::functiondefinition(t, pos)),
{
    if let Ok(p1) = grammar::return_type(t, pos) {
        lemma_expect_all(
            t,
            p1,
            [
                C1Token::Identifier,
                C1Token::LeftParenthesis,
                C1Token::RightParenthesis,
                C1Token::LeftBrace,
            ]@,
            "Expected: ID () { in Line:"@,
        );
        if let Ok(p2) = grammar::expect_all(
            t,
            p1,
            [
                C1Token::Identifier,
                C1Token::LeftParenthesis,
                C1Token::RightParenthesis,
                C1Token::LeftBrace,
            ]@,
            "Expected: ID () { in Line:"@,
        ) {
            lemma_statement_list(t, p2);
        }
    }
}

pub(crate) proof fn lemma_function_call(t: Toks, pos: int)
    requires
        0 <= pos <= t.len(),
    ensures
        advances(t, pos, grammar::function_call(t, pos)),
{
    if let Ok(p) = grammar::expect(t, pos, C1Token::Identifier, "Expected: ID in Line:"@) {
        lemma_expect_all(
            t,
            p,
            [C1Token::LeftParenthesis, C1Token::RightParenthesis]@,
            "Expected: () in Line:"@,
        );
    }
}

pub(crate) proof fn lemma_function_call2(t: Toks, pos: int)
    requires
        0 <= pos <= t.len(),
    ensures
        advances(t, pos, grammar::function_call2(t, pos)),
{
    lemma_expect_all(
        t,
        pos,
        [C1Token::LeftParenthesis, C1Token::RightParenthesis]@,
        "Expected: () in Line:"@,
    );
}

pub(crate) proof fn lemma_statement_list(t: Toks, pos: int)
    requires
        0 <= pos <= t.len(),
    ensures
        moves(t, pos, grammar::statement_list(t, pos)),
    decreases t.len() - pos, 4int,
{
    if grammar::at_any(
        t,
        pos,
        [
            C1Token::LeftBrace,
            C1Token::Identifier,
            C1Token::KwIf,
            C1Token::KwReturn,
            C1Token::KwPrintf,
        ]@,
    ) {
        lemma_block(t, pos);
        if let Ok(p) = grammar::block(t, pos) {
            lemma_statement_list(t, p);
        }
    }
}

pub(crate) proof fn lemma_block(t: Toks, pos: int)
    requires
        0 <= pos <= t.len(),
    ensures
        advances(t, pos, grammar::block(t, pos)),
    decreases t.len() - pos, 3int,
{
    if grammar::at_any(t, pos, [C1Token::LeftBrace]@) {
        lemma_statement_list(t, pos + 1);
    } else {
        lemma_statement(t, pos);
    }
}

pub(crate) proof fn lemma_statement(t: Toks, pos: int)
    requires
        0 <= pos <= t.len(),
    ensures
        advances(t, pos, grammar::statement(t, pos)),
    decreases t.len() - pos, 2int,
{
    if grammar::at_any(t, pos, [C1Token::KwIf]@) {
        lemma_if_statement(t, pos);
    } else if grammar::at_any(t, pos, [C1Token::KwReturn]@) {
        lemma_return_statement(t, pos);
    } else if grammar::at_any(t, pos, [C1Token::KwPrintf]@) {
        lemma_printf(t, pos);
    } else if grammar::at_any(t, pos, [C1Token::Identifier]@) {
        lemma_statement2(t, pos + 1);
    }
}

pub(crate) proof fn lemma_statement2(t: Toks, pos: int)
    requires
        0 <= pos <= t.len(),
    ensures
        advances(t, pos, grammar::statement2(t, pos)),
{
    lemma_function_call2(t, pos);
    lemma_stat_assignment2(t, pos);
}

pub(crate) proof fn lemma_if_statement(t: Toks, pos: int)
    requires
        0 <= pos <= t.len(),
    ensures
        advances(t, pos, grammar::if_statement(t, pos)),
    decreases t.len() - pos, 1int,
{
    if grammar::at_any(t, pos, [C1Token::KwIf]@) {
        if let Ok(p1) = grammar::expect(t, pos + 1, C1Token::LeftParenthesis, "Expected: ( in Line:"@) {
            lemma_assignment(t, p1);
            if let Ok(p2) = grammar::assignment(t, p1) {
                if let Ok(p3) = grammar::expect(
                    t,
                    p2,
                    C1Token::RightParenthesis,
                    "Expected: ) in Line:"@,
                ) {
                    lemma_block(t, p3);
                }
            }
        }
    }
}

pub(crate) proof fn lemma_return_statement(t: Toks, pos: int)
    requires
        0 <= pos <= t.len(),
    ensures
        advances(t, pos, grammar::return_statement(t, pos)),
{
    if grammar::at_any(t, pos, [C1Token::KwReturn]@) {
        lemma_return_statement2(t, pos + 1);
    }
}

pub(crate) proof fn lemma_return_statement2(t: Toks, pos: int)
    requires
        0 <= pos <= t.len(),
    ensures
        moves(t, pos, grammar::return_statement2(t, pos)),
{
    lemma_assignment(t, pos);
}

pub(crate) proof fn lemma_printf(t: Toks, pos: int)
    requires
        0 <= pos <= t.len(),
    ensures
        advances(t, pos, grammar::printf(t, pos)),
{
    if grammar::at_any(t, pos, [C1Token::KwPrintf]@) {
        if let Ok(p1) = grammar::expect(t, pos + 1, C1Token::LeftParenthesis, "Expected: ( in Line:"@) {
            lemma_assignment(t, p1);
        }
    }
}

pub(crate) proof fn lemma_return_type(t: Toks, pos: int)
    requires
        0 <= pos <= t.len(),
    ensures
        advances(t, pos, grammar::return_type(t, pos)),
{

}

pub(crate) proof fn lemma_stat_assignment(t: Toks, pos: int)
    requires
        0 <= pos <= t.len(),
    ensures
        advances(t, pos, grammar::stat_assignment(t, pos)),
{
    lemma_expect_all(t, pos, [C1Token::Identifier, C1Token::Assign]@, "Expected: ID = in Line:"@);
    if let Ok(p) = grammar::expect_all(
        t,
        pos,
        [C1Token::Identifier, C1Token::Assign]@,
        "Expected: ID = in Line:"@,
    ) {
        lemma_assignment(t, p);
    }
}

pub(crate) proof fn lemma_stat_assignment2(t: Toks, pos: int)
    requires
        0 <= pos <= t.len(),
    ensures
        advances(t, pos, grammar::stat_assignment2(t, pos)),
{
    if let Ok(p) = grammar::expect(t, pos, C1Token::Assign, "Expected: = in Line:"@) {
        lemma_assignment(t, p);
    }
}

pub(crate) proof fn lemma_assignment(t: Toks, pos: int)
    requires
        0 <= pos <= t.len(),
    ensures
        moves(t, pos, grammar::assignment(t, pos)),
    decreases t.len() - pos, 5int,
{
    if grammar::at_any(t, pos, [C1Token::Identifier]@) {
        lemma_assignment2(t, pos + 1);
    } else {
        lemma_exproi(t, pos);
    }
}

pub(crate) proof fn lemma_assignment2(t: Toks, pos: int)
    requires
        0 <= pos <= t.len(),
    ensures
        moves(t, pos, grammar::assignment2(t, pos)),
    decreases t.len() - pos, 5int,
{
    if grammar::at_any(t, pos, [C1Token::Assign]@) {
        lemma_assignment(t, pos + 1);
    } else {
        lemma_exprmi(t, pos);
    }
}

pub(crate) proof fn lemma_expr(t: Toks, pos: int)
    requires
        0 <= pos <= t.len(),
    ensures
        moves(t, pos, grammar::expr(t, pos)),
{
    lemma_simpexpr(t, pos);
    if let Ok(p) = grammar::simpexpr(t, pos) {
        lemma_expr2(t, p);
    }
}

pub(crate) proof fn lemma_expr2(t: Toks, pos: int)
    requires
        0 <= pos <= t.len(),
    ensures
        moves(t, pos, grammar::expr2(t, pos)),
    decreases t.len() - pos, 1int,
{
    if grammar::at_any(t, pos, grammar::relations()) {
        lemma_simpexpr(t, pos + 1);
    }
}

pub(crate) proof fn lemma_exprmi(t: Toks, pos: int)
    requires
        0 <= pos <= t.len(),
    ensures
        moves(t, pos, grammar::exprmi(t, pos)),
    decreases t.len() - pos, 4int,
{
    lemma_simpexprmi(t, pos);
    if let Ok(p) = grammar::simpexprmi(t, pos) {
        lemma_expr2(t, p);
    }
}

pub(crate) proof fn lemma_exproi(t: Toks, pos: int)
    requires
        0 <= pos <= t.len(),
    ensures
        moves(t, pos, grammar::exproi(t, pos)),
    decreases t.len() - pos, 4int,
{
    lemma_simpexproi(t, pos);
    if let Ok(p) = grammar::simpexproi(t, pos) {
        lemma_expr2(t, p);
    }
}

pub(crate) proof fn lemma_operator(t: Toks, pos: int)
    requires
        0 <= pos <= t.len(),
    ensures
        advances(t, pos, grammar::operator(t, pos)),
{

}

pub(crate) proof fn lemma_simpexpr(t: Toks, pos: int)
    requires
        0 <= pos <= t.len(),
    ensures
        moves(t, pos, grammar::simpexpr(t, pos)),
    decreases t.len() - pos, 3int,
{
    let start = if grammar::at_any(t, pos, [C1Token::Minus]@) {
        pos + 1
    } else {
        pos
    };
    lemma_term(t, start);
    if let Ok(p) = grammar::term(t, start) {
        lemma_simpexpr2(t, p);
    }
}

pub(crate) proof fn lemma_simpexpr2(t: Toks, pos: int)
    requires
        0 <= pos <= t.len(),
    ensures
        moves(t, pos, grammar::simpexpr2(t, pos)),
    decreases t.len() - pos, 1int,
{
    if grammar::at_any(t, pos, [C1Token::Plus, C1Token::Minus, C1Token::Or]@) {
        lemma_term(t, pos + 1);
        if let Ok(p) = grammar::term(t, pos + 1) {
            lemma_simpexpr2(t, p);
        }
    }
}

pub(crate) proof fn lemma_simpexprmi(t: Toks, pos: int)
    requires
        0 <= pos <= t.len(),
    ensures
        moves(t, pos, grammar::simpexprmi(t, pos)),
    decreases t.len() - pos, 3int,
{
    lemma_termmi(t, pos);
    if let Ok(p) = grammar::termmi(t, pos) {
        lemma_simpexpr2(t, p);
    }
}

pub(crate) proof fn lemma_simpexproi(t: Toks, pos: int)
    requires
        0 <= pos <= t.len(),
    ensures
        moves(t, pos, grammar::simpexproi(t, pos)),
    decreases t.len() - pos, 3int,
{
    if grammar::at_any(t, pos, [C1Token::Minus]@) {
        lemma_term(t, pos + 1);
        if let Ok(p) = grammar::term(t, pos + 1) {
            lemma_simpexpr2(t, p);
        }
    } else {
        lemma_termoi(t, pos);
        if let Ok(p) = grammar::termoi(t, pos) {
            lemma_simpexpr2(t, p);
        }
    }
}

pub(crate) proof fn lemma_term(t: Toks, pos: int)
    requires
        0 <= pos <= t.len(),
    ensures
        moves(t, pos, grammar::term(t, pos)),
    decreases t.len() - pos, 2int,
{
    lemma_factor(t, pos);
    if let Ok(p) = grammar::factor(t, pos) {
        lemma_term2(t, p);
    }
}

pub(crate) proof fn lemma_term2(t: Toks, pos: int)
    requires
        0 <= pos <= t.len(),
    ensures
        moves(t, pos, grammar::term2(t, pos)),
    decreases t.len() - pos, 1int,
{
    if grammar::at_any(t, pos, [C1Token::Asterisk, C1Token::Slash, C1Token::And]@) {
        lemma_factor(t, pos + 1);
        if let Ok(p) = grammar::factor(t, pos + 1) {
            lemma_term2(t, p);
        }
    }
}

pub(crate) proof fn lemma_termmi(t: Toks, pos: int)
    requires
        0 <= pos <= t.len(),
    ensures
        moves(t, pos, grammar::termmi(t, pos)),
    decreases t.len() - pos, 2int,
{
    lemma_factor2(t, pos);
    if let Ok(p) = grammar::factor2(t, pos) {
        lemma_term2(t, p);
    }
}

pub(crate) proof fn lemma_termoi(t: Toks, pos: int)
    requires
        0 <= pos <= t.len(),
    ensures
        moves(t, pos, grammar::termoi(t, pos)),
    decreases t.len() - pos, 2int,
{
    lemma_factoroi(t, pos);
    if let Ok(p) = grammar::factoroi(t, pos) {
        lemma_term2(t, p);
    }
}

pub(crate) proof fn lemma_factor(t: Toks, pos: int)
    requires
        0 <= pos <= t.len(),
    ensures
        advances(t, pos, grammar::factor(t, pos)),
    decreases t.len() - pos, 1int,
{
    if grammar::at_any(t, pos, [C1Token::Identifier]@) {
        lemma_factor2(t, pos + 1);
    } else if grammar::at_any(t, pos, [C1Token::LeftParenthesis]@) {
        lemma_assignment(t, pos + 1);
    }
}

pub(crate) proof fn lemma_factor2(t: Toks, pos: int)
    requires
        0 <= pos <= t.len(),
    ensures
        moves(t, pos, grammar::factor2(t, pos)),
{
    lemma_function_call2(t, pos);
}

pub(crate) proof fn lemma_factoroi(t: Toks, pos: int)
    requires
        0 <= pos <= t.len(),
    ensures
        advances(t, pos, grammar::factoroi(t, pos)),
    decreases t.len() - pos, 1int,
{
    if grammar::at_any(t, pos, [C1Token::LeftParenthesis]@) {
        lemma_assignment(t, pos + 1);
    }
}

/// Every rule of the grammar, started at a position within the input,
/// leaves the cursor, whether it succeeds or fails, no earlier than where it
/// started and no later than the end of the input; the rules that begin with a fixed token (function
/// definitions, blocks, statements and their kinds, types, assignments as
/// statements, factors, operators, calls) consume at least one token.
pub proof fn lemma_rules_move_forward(t: Toks, pos: int)
    requires
        0 <= pos <= t.len(),
    ensures
        moves(t, pos, grammar::program(t, pos)),
        advances(t, pos, grammar::functiondefinition(t, pos)),
        advances(t, pos, grammar::function_call(t, pos)),
        advances(t, pos, grammar::function_call2(t, pos)),
        moves(t, pos, grammar::statement_list(t, pos)),
        advances(t, pos, grammar::block(t, pos)),
        advances(t, pos, grammar::statement(t, pos)),
        advances(t, pos, grammar::statement2(t, pos)),
        advances(t, pos, grammar::if_statement(t, pos)),
        advances(t, pos, grammar::return_statement(t, pos)),
        moves(t, pos, grammar::return_statement2(t, pos)),
        advances(t, pos, grammar::printf(t, pos)),
        advances(t, pos, grammar::return_type(t, pos)),
        advances(t, pos, grammar::stat_assignment(t, pos)),
        advances(t, pos, grammar::stat_assignment2(t, pos)),
        moves(t, pos, grammar::assignment(t, pos)),
        moves(t, pos, grammar::assignment2(t, pos)),
        moves(t, pos, grammar::expr(t, pos)),
        moves(t, pos, grammar::expr2(t, pos)),
        moves(t, pos, grammar::exprmi(t, pos)),
        moves(t, pos, grammar::exproi(t, pos)),
        advances(t, pos, grammar::operator(t, pos)),
        moves(t, pos, grammar::simpexpr(t, pos)),
        moves(t, pos, grammar::simpexpr2(t, pos)),
        moves(t, pos, grammar::simpexprmi(t, pos)),
        moves(t, pos, grammar::simpexproi(t, pos)),
        moves(t, pos, grammar::term(t, pos)),
        moves(t, pos, grammar::term2(t, pos)),
        moves(t, pos, grammar::termmi(t, pos)),
        moves(t, pos, grammar::termoi(t, pos)),
        advances(t, pos, grammar::factor(t, pos)),
        moves(t, pos, grammar::factor2(t, pos)),
        advances(t, pos, grammar::factoroi(t, pos)),
{
    lemma_program(t, pos);
    lemma_functiondefinition(t, pos);
    lemma_function_call(t, pos);
    lemma_function_call2(t, pos);
    lemma_statement_list(t, pos);
    lemma_block(t, pos);
    lemma_statement(t, pos);
    lemma_statement2(t, pos);
    lemma_if_statement(t, pos);
    lemma_return_statement(t, pos);
    lemma_return_statement2(t, pos);
    lemma_printf(t, pos);
    lemma_return_type(t, pos);
    lemma_stat_assignment(t, pos);
    lemma_stat_assignment2(t, pos);
    lemma_assignment(t, pos);
    lemma_assignment2(t, pos);
    lemma_expr(t, pos);
    lemma_expr2(t, pos);
    lemma_exprmi(t, pos);
    lemma_exproi(t, pos);
    lemma_operator(t, pos);
    lemma_simpexpr(t, pos);
    lemma_simpexpr2(t, pos);
    lemma_simpexprmi(t, pos);
    lemma_simpexproi(t, pos);
    lemma_term(t, pos);
    lemma_term2(t, pos);
    lemma_termmi(t, pos);
    lemma_termoi(t, pos);
    lemma_factor(t, pos);
    lemma_factor2(t, pos);
    lemma_factoroi(t, pos);
}

// ---------------------------------------------------------------------
// A rule's success depends only on the token kinds it reads
// ---------------------------------------------------------------------

/// `u`, shifted by `d`, shows the same token kinds as `t` on `[lo, hi)`.
pub open spec fn agree(t: Toks, u: Toks, d: int, lo: int, hi: int) -> bool {
    &&& 0 <= lo <= hi <= t.len()
    &&& 0 <= lo + d
    &&& hi + d <= u.len()
    &&& forall|i: int| lo <= i < hi ==> #[trigger] t[i].0 == u[i + d].0
}

/// Position `q` is below `hi`, or it is `hi` and both streams end there.
pub open spec fn reach_pos(t: Toks, u: Toks, d: int, hi: int, q: int) -> bool {
    q < hi || (q == hi && t.len() == hi && u.len() == hi + d)
}

/// A success that reads nothing beyond the agreeing stretch.
pub open spec fn reaches(t: Toks, u: Toks, d: int, hi: int, r: PRes) -> bool {
    r matches Ok(p) ==> reach_pos(t, u, d, hi, p)
}

/// `a` is the success `b`, moved by `d`.
pub open spec fn shifted(a: PRes, b: PRes, d: int) -> bool {
    b matches Ok(p) ==> a == Ok::<int, (Seq<char>, int)>(p + d)
}

proof fn lemma_cur_agrees(t: Toks, u: Toks, d: int, lo: int, hi: int, q: int)
    requires
        agree(t, u, d, lo, hi),
        lo <= q,
        reach_pos(t, u, d, hi, q),
    ensures
        crate::lexer::cur(u, q + d) == crate::lexer::cur(t, q),
{
    if q < hi {
        assert(t[q].0 == u[q + d].0);
    }
}

proof fn agrees_expect(
    t: Toks,
    u: Toks,
    d: int,
    lo: int,
    hi: int,
    q: int,
    k: C1Token,
    text: Seq<char>,
)
    requires
        agree(t, u, d, lo, hi),
        lo <= q,
        grammar::expect(t, q, k, text) matches Ok(p) ==> p <= hi,
    ensures
        shifted(grammar::expect(u, q + d, k, text), grammar::expect(t, q, k, text), d),
{
    if grammar::expect(t, q, k, text) is Ok {
        lemma_cur_agrees(t, u, d, lo, hi, q);
    }
}

proof fn agrees_expect_all(
    t: Toks,
    u: Toks,
    d: int,
    lo: int,
    hi: int,
    q: int,
    ks: Seq<C1Token>,
    text: Seq<char>,
)
    requires
        agree(t, u, d, lo, hi),
        lo <= q <= t.len(),
        grammar::expect_all(t, q, ks, text) matches Ok(p) ==> p <= hi,
    ensures
        shifted(grammar::expect_all(u, q + d, ks, text), grammar::expect_all(t, q, ks, text), d),
{
    lemma_check_tokens_exact(t, q, ks, grammar::message(t, q, text));
    if grammar::expect_all(t, q, ks, text) is Ok {
        lemma_check_tokens_exact(u, q + d, ks, grammar::message(u, q + d, text));
        assert forall|j: int| 0 <= j < ks.len() implies #[trigger] u[q + d + j].0 == ks[j] by {
            assert(t[q + j].0 == ks[j]);
            assert(t[q + j].0 == u[q + j + d].0);
        }
    }
}

proof fn agrees_program(t: Toks, u: Toks, d: int, lo: int, hi: int, pos: int)
    requires
        agree(t, u, d, lo, hi),
        lo <= pos <= t.len(),
        reaches(t, u, d, hi, grammar::program(t, pos)),
    ensures
        shifted(grammar::program(u, pos + d), grammar::program(t, pos), d),
    decreases t.len() - pos,
{
    lemma_program(t, pos);
    if grammar::program(t, pos) is Ok {
        lemma_cur_agrees(t, u, d, lo, hi, pos);
        if !grammar::at_end(t, pos) && grammar::at_any(t, pos, grammar::type_keywords()) {
            if let Ok(p) = grammar::functiondefinition(t, pos) {
                lemma_program(t, p);
                lemma_functiondefinition(t, pos);
                agrees_functiondefinition(t, u, d, lo, hi, pos);
                agrees_program(t, u, d, lo, hi, p);
            }
        }
    }
}

proof fn agrees_functiondefinition(t: Toks, u: Toks, d: int, lo: int, hi: int, pos: int)
    requires
        agree(t, u, d, lo, hi),
        lo <= pos <= t.len(),
        grammar::functiondefinition(t, pos) matches Ok(p) ==> p <= hi,
    ensures
        shifted(grammar::functiondefinition(u, pos + d), grammar::functiondefinition(t, pos), d),
{
    lemma_functiondefinition(t, pos);
    if grammar::functiondefinition(t, pos) is Ok {
        lemma_cur_agrees(t, u, d, lo, hi, pos);
        if let Ok(p2) = grammar::expect_all(t, pos + 1, [C1Token::Identifier, C1Token::LeftParenthesis, C1Token::RightParenthesis, C1Token::LeftBrace]@, "Expected: ID () { in Line:"@) {
            lemma_expect_all(t, pos + 1, [C1Token::Identifier, C1Token::LeftParenthesis, C1Token::RightParenthesis, C1Token::LeftBrace]@, "Expected: ID () { in Line:"@);
            lemma_statement_list(t, p2);
            if let Ok(p3) = grammar::statement_list(t, p2) {
                lemma_return_type(t, pos);
                lemma_expect_all(t, pos + 1, [C1Token::Identifier, C1Token::LeftParenthesis, C1Token::RightParenthesis, C1Token::LeftBrace]@, "Expected: ID () { in Line:"@);
                lemma_statement_list(t, p2);
                lemma_expect(t, p3, C1Token::RightBrace, "Expected: } in Line:"@);
                agrees_return_type(t, u, d, lo, hi, pos);
                agrees_expect_all(t, u, d, lo, hi, pos + 1, [C1Token::Identifier, C1Token::LeftParenthesis, C1Token::RightParenthesis, C1Token::LeftBrace]@, "Expected: ID () { in Line:"@);
                agrees_statement_list(t, u, d, lo, hi, p2);
                agrees_expect(t, u, d, lo, hi, p3, C1Token::RightBrace, "Expected: } in Line:"@);
            }
        }
    }
}

proof fn agrees_function_call(t: Toks, u: Toks, d: int, lo: int, hi: int, pos: int)
    requires
        agree(t, u, d, lo, hi),
        lo <= pos <= t.len(),
        reaches(t, u, d, hi, grammar::function_call(t, pos)),
    ensures
        shifted(grammar::function_call(u, pos + d), grammar::function_call(t, pos), d),
{
    lemma_function_call(t, pos);
    if grammar::function_call(t, pos) is Ok {
        lemma_cur_agrees(t, u, d, lo, hi, pos);
        lemma_expect_all(t, pos + 1, [C1Token::LeftParenthesis, C1Token::RightParenthesis]@, "Expected: () in Line:"@);
        lemma_expect(t, pos, C1Token::Identifier, "Expected: ID in Line:"@);
        agrees_expect(t, u, d, lo, hi, pos, C1Token::Identifier, "Expected: ID in Line:"@);
        agrees_expect_all(t, u, d, lo, hi, pos + 1, [C1Token::LeftParenthesis, C1Token::RightParenthesis]@, "Expected: () in Line:"@);
    }
}

proof fn agrees_function_call2(t: Toks, u: Toks, d: int, lo: int, hi: int, pos: int)
    requires
        agree(t, u, d, lo, hi),
        lo <= pos <= t.len(),
        reaches(t, u, d, hi, grammar::function_call2(t, pos)),
    ensures
        shifted(grammar::function_call2(u, pos + d), grammar::function_call2(t, pos), d),
{
    lemma_function_call2(t, pos);
    if grammar::function_call2(t, pos) is Ok {
        lemma_cur_agrees(t, u, d, lo, hi, pos);
        lemma_expect_all(t, pos, [C1Token::LeftParenthesis, C1Token::RightParenthesis]@, "Expected: () in Line:"@);
        agrees_expect_all(t, u, d, lo, hi, pos, [C1Token::LeftParenthesis, C1Token::RightParenthesis]@, "Expected: () in Line:"@);
    }
}

proof fn agrees_statement_list(t: Toks, u: Toks, d: int, lo: int, hi: int, pos: int)
    requires
        agree(t, u, d, lo, hi),
        lo <= pos <= t.len(),
        reaches(t, u, d, hi, grammar::statement_list(t, pos)),
    ensures
        shifted(grammar::statement_list(u, pos + d), grammar::statement_list(t, pos), d),
    decreases t.len() - pos, 4int,
{
    lemma_statement_list(t, pos);
    if grammar::statement_list(t, pos) is Ok {
        lemma_cur_agrees(t, u, d, lo, hi, pos);
        if grammar::at_any(t, pos, [C1Token::LeftBrace, C1Token::Identifier, C1Token::KwIf, C1Token::KwReturn, C1Token::KwPrintf]@) {
            if let Ok(q) = grammar::block(t, pos) {
                lemma_statement_list(t, q);
                lemma_block(t, pos);
                agrees_block(t, u, d, lo, hi, pos);
                agrees_statement_list(t, u, d, lo, hi, q);
            }
        }
    }
}

proof fn agrees_block(t: Toks, u: Toks, d: int, lo: int, hi: int, pos: int)
    requires
        agree(t, u, d, lo, hi),
        lo <= pos <= t.len(),
        reaches(t, u, d, hi, grammar::block(t, pos)),
    ensures
        shifted(grammar::block(u, pos + d), grammar::block(t, pos), d),
    decreases t.len() - pos, 3int,
{
    lemma_block(t, pos);
    if grammar::block(t, pos) is Ok {
        lemma_cur_agrees(t, u, d, lo, hi, pos);
        if grammar::at_any(t, pos, [C1Token::LeftBrace]@) {
            lemma_statement_list(t, pos + 1);
            if let Ok(q) = grammar::statement_list(t, pos + 1) {
                lemma_statement_list(t, pos + 1);
                lemma_expect(t, q, C1Token::RightBrace, "Expected: } in Line:"@);
                agrees_statement_list(t, u, d, lo, hi, pos + 1);
                agrees_expect(t, u, d, lo, hi, q, C1Token::RightBrace, "Expected: } in Line:"@);
            }
        } else {
            lemma_statement(t, pos);
            agrees_statement(t, u, d, lo, hi, pos);
        }
    }
}

proof fn agrees_statement(t: Toks, u: Toks, d: int, lo: int, hi: int, pos: int)
    requires
        agree(t, u, d, lo, hi),
        lo <= pos <= t.len(),
        reaches(t, u, d, hi, grammar::statement(t, pos)),
    ensures
        shifted(grammar::statement(u, pos + d), grammar::statement(t, pos), d),
    decreases t.len() - pos, 2int,
{
    lemma_statement(t, pos);
    if grammar::statement(t, pos) is Ok {
        lemma_cur_agrees(t, u, d, lo, hi, pos);
        if grammar::at_any(t, pos, [C1Token::KwIf]@) {
            lemma_if_statement(t, pos);
            agrees_if_statement(t, u, d, lo, hi, pos);
        } else if grammar::at_any(t, pos, [C1Token::KwReturn]@) {
            if let Ok(q) = grammar::return_statement(t, pos) {
                lemma_return_statement(t, pos);
                lemma_expect(t, q, C1Token::Semicolon, "Expected: ; in Line:"@);
                agrees_return_statement(t, u, d, lo, hi, pos);
                agrees_expect(t, u, d, lo, hi, q, C1Token::Semicolon, "Expected: ; in Line:"@);
            }
        } else if grammar::at_any(t, pos, [C1Token::KwPrintf]@) {
            if let Ok(q) = grammar::printf(t, pos) {
                lemma_printf(t, pos);
                lemma_expect(t, q, C1Token::Semicolon, "Expected: ; in Line:"@);
                agrees_printf(t, u, d, lo, hi, pos);
                agrees_expect(t, u, d, lo, hi, q, C1Token::Semicolon, "Expected: ; in Line:"@);
            }
        } else if grammar::at_any(t, pos, [C1Token::Identifier]@) {
            lemma_statement2(t, pos + 1);
            if let Ok(q) = grammar::statement2(t, pos + 1) {
                lemma_statement2(t, pos + 1);
                lemma_expect(t, q, C1Token::Semicolon, "Expected: ; in Line:"@);
                agrees_statement2(t, u, d, lo, hi, pos + 1);
                agrees_expect(t, u, d, lo, hi, q, C1Token::Semicolon, "Expected: ; in Line:"@);
            }
        }
    }
}

proof fn agrees_statement2(t: Toks, u: Toks, d: int, lo: int, hi: int, pos: int)
    requires
        agree(t, u, d, lo, hi),
        lo <= pos <= t.len(),
        reaches(t, u, d, hi, grammar::statement2(t, pos)),
    ensures
        shifted(grammar::statement2(u, pos + d), grammar::statement2(t, pos), d),
{
    lemma_statement2(t, pos);
    if grammar::statement2(t, pos) is Ok {
        lemma_cur_agrees(t, u, d, lo, hi, pos);
        if grammar::at_any(t, pos, [C1Token::LeftParenthesis]@) {
            lemma_function_call2(t, pos);
            agrees_function_call2(t, u, d, lo, hi, pos);
        } else {
            lemma_stat_assignment2(t, pos);
            agrees_stat_assignment2(t, u, d, lo, hi, pos);
        }
    }
}

proof fn agrees_if_statement(t: Toks, u: Toks, d: int, lo: int, hi: int, pos: int)
    requires
        agree(t, u, d, lo, hi),
        lo <= pos <= t.len(),
        reaches(t, u, d, hi, grammar::if_statement(t, pos)),
    ensures
        shifted(grammar::if_statement(u, pos + d), grammar::if_statement(t, pos), d),
    decreases t.len() - pos, 1int,
{
    lemma_if_statement(t, pos);
    if grammar::if_statement(t, pos) is Ok {
        lemma_cur_agrees(t, u, d, lo, hi, pos);
        if let Ok(p1) = grammar::expect(t, pos + 1, C1Token::LeftParenthesis, "Expected: ( in Line:"@) {
            lemma_assignment(t, p1);
            if let Ok(p2) = grammar::assignment(t, p1) {
                if let Ok(p3) = grammar::expect(t, p2, C1Token::RightParenthesis, "Expected: ) in Line:"@) {
                    lemma_block(t, p3);
                    lemma_expect(t, pos + 1, C1Token::LeftParenthesis, "Expected: ( in Line:"@);
                    lemma_assignment(t, p1);
                    lemma_expect(t, p2, C1Token::RightParenthesis, "Expected: ) in Line:"@);
                    agrees_expect(t, u, d, lo, hi, pos + 1, C1Token::LeftParenthesis, "Expected: ( in Line:"@);
                    agrees_assignment(t, u, d, lo, hi, p1);
                    agrees_expect(t, u, d, lo, hi, p2, C1Token::RightParenthesis, "Expected: ) in Line:"@);
                    agrees_block(t, u, d, lo, hi, p3);
                }
            }
        }
    }
}

proof fn agrees_return_statement(t: Toks, u: Toks, d: int, lo: int, hi: int, pos: int)
    requires
        agree(t, u, d, lo, hi),
        lo <= pos <= t.len(),
        reaches(t, u, d, hi, grammar::return_statement(t, pos)),
    ensures
        shifted(grammar::return_statement(u, pos + d), grammar::return_statement(t, pos), d),
{
    lemma_return_statement(t, pos);
    if grammar::return_statement(t, pos) is Ok {
        lemma_cur_agrees(t, u, d, lo, hi, pos);
        lemma_return_statement2(t, pos + 1);
        agrees_return_statement2(t, u, d, lo, hi, pos + 1);
    }
}

proof fn agrees_return_statement2(t: Toks, u: Toks, d: int, lo: int, hi: int, pos: int)
    requires
        agree(t, u, d, lo, hi),
        lo <= pos <= t.len(),
        reaches(t, u, d, hi, grammar::return_statement2(t, pos)),
    ensures
        shifted(grammar::return_statement2(u, pos + d), grammar::return_statement2(t, pos), d),
{
    lemma_return_statement2(t, pos);
    if grammar::return_statement2(t, pos) is Ok {
        lemma_cur_agrees(t, u, d, lo, hi, pos);
        if grammar::at_any(
            t,
            pos,
            [
                C1Token::Identifier,
                C1Token::Minus,
                C1Token::ConstInt,
                C1Token::ConstFloat,
                C1Token::ConstBoolean,
                C1Token::LeftParenthesis,
            ]@,
        ) {
            lemma_assignment(t, pos);
            agrees_assignment(t, u, d, lo, hi, pos);
        }
    }
}

proof fn agrees_printf(t: Toks, u: Toks, d: int, lo: int, hi: int, pos: int)
    requires
        agree(t, u, d, lo, hi),
        lo <= pos <= t.len(),
        reaches(t, u, d, hi, grammar::printf(t, pos)),
    ensures
        shifted(grammar::printf(u, pos + d), grammar::printf(t, pos), d),
{
    lemma_printf(t, pos);
    if grammar::printf(t, pos) is Ok {
        lemma_cur_agrees(t, u, d, lo, hi, pos);
        if let Ok(p1) = grammar::expect(t, pos + 1, C1Token::LeftParenthesis, "Expected: ( in Line:"@) {
            lemma_assignment(t, p1);
            if let Ok(p2) = grammar::assignment(t, p1) {
                lemma_expect(t, pos + 1, C1Token::LeftParenthesis, "Expected: ( in Line:"@);
                lemma_assignment(t, p1);
                lemma_expect(t, p2, C1Token::RightParenthesis, "Expected: ) in Line:"@);
                agrees_expect(t, u, d, lo, hi, pos + 1, C1Token::LeftParenthesis, "Expected: ( in Line:"@);
                agrees_assignment(t, u, d, lo, hi, p1);
                agrees_expect(t, u, d, lo, hi, p2, C1Token::RightParenthesis, "Expected: ) in Line:"@);
            }
        }
    }
}

proof fn agrees_return_type(t: Toks, u: Toks, d: int, lo: int, hi: int, pos: int)
    requires
        agree(t, u, d, lo, hi),
        lo <= pos <= t.len(),
        reaches(t, u, d, hi, grammar::return_type(t, pos)),
    ensures
        shifted(grammar::return_type(u, pos + d), grammar::return_type(t, pos), d),
{
    lemma_return_type(t, pos);
    if grammar::return_type(t, pos) is Ok {
        lemma_cur_agrees(t, u, d, lo, hi, pos);

    }
}

proof fn agrees_stat_assignment(t: Toks, u: Toks, d: int, lo: int, hi: int, pos: int)
    requires
        agree(t, u, d, lo, hi),
        lo <= pos <= t.len(),
        reaches(t, u, d, hi, grammar::stat_assignment(t, pos)),
    ensures
        shifted(grammar::stat_assignment(u, pos + d), grammar::stat_assignment(t, pos), d),
{
    lemma_stat_assignment(t, pos);
    if grammar::stat_assignment(t, pos) is Ok {
        lemma_cur_agrees(t, u, d, lo, hi, pos);
        if let Ok(q) = grammar::expect_all(t, pos, [C1Token::Identifier, C1Token::Assign]@, "Expected: ID = in Line:"@) {
            lemma_expect_all(t, pos, [C1Token::Identifier, C1Token::Assign]@, "Expected: ID = in Line:"@);
            lemma_assignment(t, q);
            agrees_expect_all(t, u, d, lo, hi, pos, [C1Token::Identifier, C1Token::Assign]@, "Expected: ID = in Line:"@);
            agrees_assignment(t, u, d, lo, hi, q);
        }
    }
}

proof fn agrees_stat_assignment2(t: Toks, u: Toks, d: int, lo: int, hi: int, pos: int)
    requires
        agree(t, u, d, lo, hi),
        lo <= pos <= t.len(),
        reaches(t, u, d, hi, grammar::stat_assignment2(t, pos)),
    ensures
        shifted(grammar::stat_assignment2(u, pos + d), grammar::stat_assignment2(t, pos), d),
{
    lemma_stat_assignment2(t, pos);
    if grammar::stat_assignment2(t, pos) is Ok {
        lemma_cur_agrees(t, u, d, lo, hi, pos);
        if let Ok(q) = grammar::expect(t, pos, C1Token::Assign, "Expected: = in Line:"@) {
            lemma_assignment(t, q);
            lemma_expect(t, pos, C1Token::Assign, "Expected: = in Line:"@);
            agrees_expect(t, u, d, lo, hi, pos, C1Token::Assign, "Expected: = in Line:"@);
            agrees_assignment(t, u, d, lo, hi, q);
        }
    }
}

proof fn agrees_assignment(t: Toks, u: Toks, d: int, lo: int, hi: int, pos: int)
    requires
        agree(t, u, d, lo, hi),
        lo <= pos <= t.len(),
        reaches(t, u, d, hi, grammar::assignment(t, pos)),
    ensures
        shifted(grammar::assignment(u, pos + d), grammar::assignment(t, pos), d),
    decreases t.len() - pos, 5int,
{
    lemma_assignment(t, pos);
    if grammar::assignment(t, pos) is Ok {
        lemma_cur_agrees(t, u, d, lo, hi, pos);
        if grammar::at_any(t, pos, [C1Token::Identifier]@) {
            lemma_assignment2(t, pos + 1);
            agrees_assignment2(t, u, d, lo, hi, pos + 1);
        } else {
            lemma_exproi(t, pos);
            agrees_exproi(t, u, d, lo, hi, pos);
        }
    }
}

proof fn agrees_assignment2(t: Toks, u: Toks, d: int, lo: int, hi: int, pos: int)
    requires
        agree(t, u, d, lo, hi),
        lo <= pos <= t.len(),
        reaches(t, u, d, hi, grammar::assignment2(t, pos)),
    ensures
        shifted(grammar::assignment2(u, pos + d), grammar::assignment2(t, pos), d),
    decreases t.len() - pos, 5int,
{
    lemma_assignment2(t, pos);
    if grammar::assignment2(t, pos) is Ok {
        lemma_cur_agrees(t, u, d, lo, hi, pos);
        if grammar::at_any(t, pos, [C1Token::Assign]@) {
            lemma_assignment(t, pos + 1);
            agrees_assignment(t, u, d, lo, hi, pos + 1);
        } else if grammar::at_any(
            t,
            pos,
            [
                C1Token::Plus,
                C1Token::Minus,
                C1Token::Or,
                C1Token::Less,
                C1Token::Greater,
                C1Token::LessEqual,
                C1Token::GreaterEqual,
                C1Token::Equal,
                C1Token::NotEqual,
                C1Token::LeftParenthesis,
                C1Token::Asterisk,
                C1Token::Slash,
                C1Token::And,
            ]@,
        ) || grammar::at_end(t, pos) {
            lemma_exprmi(t, pos);
            agrees_exprmi(t, u, d, lo, hi, pos);
        }
    }
}

proof fn agrees_expr(t: Toks, u: Toks, d: int, lo: int, hi: int, pos: int)
    requires
        agree(t, u, d, lo, hi),
        lo <= pos <= t.len(),
        reaches(t, u, d, hi, grammar::expr(t, pos)),
    ensures
        shifted(grammar::expr(u, pos + d), grammar::expr(t, pos), d),
{
    lemma_expr(t, pos);
    if grammar::expr(t, pos) is Ok {
        lemma_cur_agrees(t, u, d, lo, hi, pos);
        if let Ok(q) = grammar::simpexpr(t, pos) {
            lemma_expr2(t, q);
            lemma_simpexpr(t, pos);
            agrees_simpexpr(t, u, d, lo, hi, pos);
            agrees_expr2(t, u, d, lo, hi, q);
        }
    }
}

proof fn agrees_expr2(t: Toks, u: Toks, d: int, lo: int, hi: int, pos: int)
    requires
        agree(t, u, d, lo, hi),
        lo <= pos <= t.len(),
        reaches(t, u, d, hi, grammar::expr2(t, pos)),
    ensures
        shifted(grammar::expr2(u, pos + d), grammar::expr2(t, pos), d),
    decreases t.len() - pos, 1int,
{
    lemma_expr2(t, pos);
    if grammar::expr2(t, pos) is Ok {
        lemma_cur_agrees(t, u, d, lo, hi, pos);
        if grammar::at_any(t, pos, grammar::relations()) {
            lemma_simpexpr(t, pos + 1);
            lemma_operator(t, pos);
            agrees_operator(t, u, d, lo, hi, pos);
            agrees_simpexpr(t, u, d, lo, hi, pos + 1);
        }
    }
}

proof fn agrees_exprmi(t: Toks, u: Toks, d: int, lo: int, hi: int, pos: int)
    requires
        agree(t, u, d, lo, hi),
        lo <= pos <= t.len(),
        reaches(t, u, d, hi, grammar::exprmi(t, pos)),
    ensures
        shifted(grammar::exprmi(u, pos + d), grammar::exprmi(t, pos), d),
    decreases t.len() - pos, 4int,
{
    lemma_exprmi(t, pos);
    if grammar::exprmi(t, pos) is Ok {
        lemma_cur_agrees(t, u, d, lo, hi, pos);
        if grammar::at_any(t, pos, [C1Token::RightParenthesis, C1Token::Semicolon]@) || grammar::at_end(
            t,
            pos,
        ) {
        } else if let Ok(q) = grammar::simpexprmi(t, pos) {
            lemma_expr2(t, q);
            lemma_simpexprmi(t, pos);
            agrees_simpexprmi(t, u, d, lo, hi, pos);
            agrees_expr2(t, u, d, lo, hi, q);
        }
    }
}

proof fn agrees_exproi(t: Toks, u: Toks, d: int, lo: int, hi: int, pos: int)
    requires
        agree(t, u, d, lo, hi),
        lo <= pos <= t.len(),
        reaches(t, u, d, hi, grammar::exproi(t, pos)),
    ensures
        shifted(grammar::exproi(u, pos + d), grammar::exproi(t, pos), d),
    decreases t.len() - pos, 4int,
{
    lemma_exproi(t, pos);
    if grammar::exproi(t, pos) is Ok {
        lemma_cur_agrees(t, u, d, lo, hi, pos);
        if let Ok(q) = grammar::simpexproi(t, pos) {
            lemma_expr2(t, q);
            lemma_simpexproi(t, pos);
            agrees_simpexproi(t, u, d, lo, hi, pos);
            agrees_expr2(t, u, d, lo, hi, q);
        }
    }
}

proof fn agrees_operator(t: Toks, u: Toks, d: int, lo: int, hi: int, pos: int)
    requires
        agree(t, u, d, lo, hi),
        lo <= pos <= t.len(),
        reaches(t, u, d, hi, grammar::operator(t, pos)),
    ensures
        shifted(grammar::operator(u, pos + d), grammar::operator(t, pos), d),
{
    lemma_operator(t, pos);
    if grammar::operator(t, pos) is Ok {
        lemma_cur_agrees(t, u, d, lo, hi, pos);

    }
}

proof fn agrees_simpexpr(t: Toks, u: Toks, d: int, lo: int, hi: int, pos: int)
    requires
        agree(t, u, d, lo, hi),
        lo <= pos <= t.len(),
        reaches(t, u, d, hi, grammar::simpexpr(t, pos)),
    ensures
        shifted(grammar::simpexpr(u, pos + d), grammar::simpexpr(t, pos), d),
    decreases t.len() - pos, 3int,
{
    lemma_simpexpr(t, pos);
    if grammar::simpexpr(t, pos) is Ok {
        lemma_cur_agrees(t, u, d, lo, hi, pos);
        let start = if grammar::at_any(t, pos, [C1Token::Minus]@) {
            pos + 1
        } else {
            pos
        };
        lemma_term(t, start);
        if let Ok(q) = grammar::term(t, start) {
            lemma_simpexpr2(t, q);
            lemma_term(t, start);
            agrees_term(t, u, d, lo, hi, start);
            agrees_simpexpr2(t, u, d, lo, hi, q);
        }
    }
}

proof fn agrees_simpexpr2(t: Toks, u: Toks, d: int, lo: int, hi: int, pos: int)
    requires
        agree(t, u, d, lo, hi),
        lo <= pos <= t.len(),
        reaches(t, u, d, hi, grammar::simpexpr2(t, pos)),
    ensures
        shifted(grammar::simpexpr2(u, pos + d), grammar::simpexpr2(t, pos), d),
    decreases t.len() - pos, 1int,
{
    lemma_simpexpr2(t, pos);
    if grammar::simpexpr2(t, pos) is Ok {
        lemma_cur_agrees(t, u, d, lo, hi, pos);
        if grammar::at_any(t, pos, [C1Token::Plus, C1Token::Minus, C1Token::Or]@) {
            lemma_term(t, pos + 1);
            if let Ok(q) = grammar::term(t, pos + 1) {
                lemma_simpexpr2(t, q);
                lemma_term(t, pos + 1);
                agrees_term(t, u, d, lo, hi, pos + 1);
                agrees_simpexpr2(t, u, d, lo, hi, q);
            }
        }
    }
}

#[verifier::rlimit(50)]
proof fn agrees_simpexprmi(t: Toks, u: Toks, d: int, lo: int, hi: int, pos: int)
    requires
        agree(t, u, d, lo, hi),
        lo <= pos <= t.len(),
        reaches(t, u, d, hi, grammar::simpexprmi(t, pos)),
    ensures
        shifted(grammar::simpexprmi(u, pos + d), grammar::simpexprmi(t, pos), d),
    decreases t.len() - pos, 3int,
{
    lemma_simpexprmi(t, pos);
    if grammar::simpexprmi(t, pos) is Ok {
        lemma_cur_agrees(t, u, d, lo, hi, pos);
        if let Ok(q) = grammar::termmi(t, pos) {
            lemma_simpexpr2(t, q);
            lemma_termmi(t, pos);
            agrees_termmi(t, u, d, lo, hi, pos);
            agrees_simpexpr2(t, u, d, lo, hi, q);
        }
    }
}

proof fn agrees_simpexproi(t: Toks, u: Toks, d: int, lo: int, hi: int, pos: int)
    requires
        agree(t, u, d, lo, hi),
        lo <= pos <= t.len(),
        reaches(t, u, d, hi, grammar::simpexproi(t, pos)),
    ensures
        shifted(grammar::simpexproi(u, pos + d), grammar::simpexproi(t, pos), d),
    decreases t.len() - pos, 3int,
{
    lemma_simpexproi(t, pos);
    if grammar::simpexproi(t, pos) is Ok {
        lemma_cur_agrees(t, u, d, lo, hi, pos);
        if grammar::at_any(t, pos, [C1Token::Minus]@) {
            lemma_term(t, pos + 1);
            if let Ok(q) = grammar::term(t, pos + 1) {
                lemma_simpexpr2(t, q);
                lemma_term(t, pos + 1);
                agrees_term(t, u, d, lo, hi, pos + 1);
                agrees_simpexpr2(t, u, d, lo, hi, q);
            }
        } else {
            if let Ok(q) = grammar::termoi(t, pos) {
                lemma_simpexpr2(t, q);
                lemma_termoi(t, pos);
                agrees_termoi(t, u, d, lo, hi, pos);
                agrees_simpexpr2(t, u, d, lo, hi, q);
            }
        }
    }
}

proof fn agrees_term(t: Toks, u: Toks, d: int, lo: int, hi: int, pos: int)
    requires
        agree(t, u, d, lo, hi),
        lo <= pos <= t.len(),
        reaches(t, u, d, hi, grammar::term(t, pos)),
    ensures
        shifted(grammar::term(u, pos + d), grammar::term(t, pos), d),
    decreases t.len() - pos, 2int,
{
    lemma_term(t, pos);
    if grammar::term(t, pos) is Ok {
        lemma_cur_agrees(t, u, d, lo, hi, pos);
        if let Ok(q) = grammar::factor(t, pos) {
            lemma_term2(t, q);
            lemma_factor(t, pos);
            agrees_factor(t, u, d, lo, hi, pos);
            agrees_term2(t, u, d, lo, hi, q);
        }
    }
}

proof fn agrees_termmi(t: Toks, u: Toks, d: int, lo: int, hi: int, pos: int)
    requires
        agree(t, u, d, lo, hi),
        lo <= pos <= t.len(),
        reaches(t, u, d, hi, grammar::termmi(t, pos)),
    ensures
        shifted(grammar::termmi(u, pos + d), grammar::termmi(t, pos), d),
    decreases t.len() - pos, 2int,
{
    lemma_termmi(t, pos);
    if grammar::termmi(t, pos) is Ok {
        lemma_cur_agrees(t, u, d, lo, hi, pos);
        if let Ok(q) = grammar::factor2(t, pos) {
            lemma_term2(t, q);
            lemma_factor2(t, pos);
            agrees_factor2(t, u, d, lo, hi, pos);
            agrees_term2(t, u, d, lo, hi, q);
        }
    }
}

proof fn agrees_termoi(t: Toks, u: Toks, d: int, lo: int, hi: int, pos: int)
    requires
        agree(t, u, d, lo, hi),
        lo <= pos <= t.len(),
        reaches(t, u, d, hi, grammar::termoi(t, pos)),
    ensures
        shifted(grammar::termoi(u, pos + d), grammar::termoi(t, pos), d),
    decreases t.len() - pos, 2int,
{
    lemma_termoi(t, pos);
    if grammar::termoi(t, pos) is Ok {
        lemma_cur_agrees(t, u, d, lo, hi, pos);
        if let Ok(q) = grammar::factoroi(t, pos) {
            lemma_term2(t, q);
            lemma_factoroi(t, pos);
            agrees_factoroi(t, u, d, lo, hi, pos);
            agrees_term2(t, u, d, lo, hi, q);
        }
    }
}

proof fn agrees_term2(t: Toks, u: Toks, d: int, lo: int, hi: int, pos: int)
    requires
        agree(t, u, d, lo, hi),
        lo <= pos <= t.len(),
        reaches(t, u, d, hi, grammar::term2(t, pos)),
    ensures
        shifted(grammar::term2(u, pos + d), grammar::term2(t, pos), d),
    decreases t.len() - pos, 1int,
{
    lemma_term2(t, pos);
    if grammar::term2(t, pos) is Ok {
        lemma_cur_agrees(t, u, d, lo, hi, pos);
        if grammar::at_any(t, pos, [C1Token::Asterisk, C1Token::Slash, C1Token::And]@) {
            lemma_factor(t, pos + 1);
            if let Ok(q) = grammar::factor(t, pos + 1) {
                lemma_term2(t, q);
                lemma_factor(t, pos + 1);
                agrees_factor(t, u, d, lo, hi, pos + 1);
                agrees_term2(t, u, d, lo, hi, q);
            }
        }
    }
}

proof fn agrees_factor(t: Toks, u: Toks, d: int, lo: int, hi: int, pos: int)
    requires
        agree(t, u, d, lo, hi),
        lo <= pos <= t.len(),
        reaches(t, u, d, hi, grammar::factor(t, pos)),
    ensures
        shifted(grammar::factor(u, pos + d), grammar::factor(t, pos), d),
    decreases t.len() - pos, 1int,
{
    lemma_factor(t, pos);
    if grammar::factor(t, pos) is Ok {
        lemma_cur_agrees(t, u, d, lo, hi, pos);
        if grammar::at_any(t, pos, [C1Token::Identifier]@) {
            lemma_factor2(t, pos + 1);
            agrees_factor2(t, u, d, lo, hi, pos + 1);
        } else if grammar::at_any(t, pos, [C1Token::LeftParenthesis]@) {
            lemma_assignment(t, pos + 1);
            if let Ok(q) = grammar::assignment(t, pos + 1) {
                lemma_assignment(t, pos + 1);
                lemma_expect(t, q, C1Token::RightParenthesis, "Expected: ) in Line:"@);
                agrees_assignment(t, u, d, lo, hi, pos + 1);
                agrees_expect(t, u, d, lo, hi, q, C1Token::RightParenthesis, "Expected: ) in Line:"@);
            }
        }
    }
}

proof fn agrees_factor2(t: Toks, u: Toks, d: int, lo: int, hi: int, pos: int)
    requires
        agree(t, u, d, lo, hi),
        lo <= pos <= t.len(),
        reaches(t, u, d, hi, grammar::factor2(t, pos)),
    ensures
        shifted(grammar::factor2(u, pos + d), grammar::factor2(t, pos), d),
{
    lemma_factor2(t, pos);
    if grammar::factor2(t, pos) is Ok {
        lemma_cur_agrees(t, u, d, lo, hi, pos);
        if grammar::at_any(t, pos, [C1Token::LeftParenthesis]@) {
            lemma_function_call2(t, pos);
            agrees_function_call2(t, u, d, lo, hi, pos);
        }
    }
}

proof fn agrees_factoroi(t: Toks, u: Toks, d: int, lo: int, hi: int, pos: int)
    requires
        agree(t, u, d, lo, hi),
        lo <= pos <= t.len(),
        reaches(t, u, d, hi, grammar::factoroi(t, pos)),
    ensures
        shifted(grammar::factoroi(u, pos + d), grammar::factoroi(t, pos), d),
    decreases t.len() - pos, 1int,
{
    lemma_factoroi(t, pos);
    if grammar::factoroi(t, pos) is Ok {
        lemma_cur_agrees(t, u, d, lo, hi, pos);
        if grammar::at_any(t, pos, [C1Token::LeftParenthesis]@) {
            lemma_assignment(t, pos + 1);
            if let Ok(q) = grammar::assignment(t, pos + 1) {
                lemma_assignment(t, pos + 1);
                lemma_expect(t, q, C1Token::RightParenthesis, "Expected: ) in Line:"@);
                agrees_assignment(t, u, d, lo, hi, pos + 1);
                agrees_expect(t, u, d, lo, hi, q, C1Token::RightParenthesis, "Expected: ) in Line:"@);
            }
        }
    }
}

// ---------------------------------------------------------------------
// Programs as sequences of function definitions
// ---------------------------------------------------------------------

/// A program that succeeds has consumed every token.
pub proof fn lemma_program_ends_at_end(t: Toks, pos: int)
    requires
        0 <= pos <= t.len(),
        grammar::program(t, pos) is Ok,
    ensures
        grammar::program(t, pos) == Ok::<int, (Seq<char>, int)>(t.len() as int),
    decreases t.len() - pos,
{
    lemma_functiondefinition(t, pos);
    if !grammar::at_end(t, pos) {
        if let Ok(p) = grammar::functiondefinition(t, pos) {
            lemma_program_ends_at_end(t, p);
        }
    }
}

/// Two token streams with the same kinds, token for token.
pub open spec fn same_kinds(t: Toks, u: Toks) -> bool {
    &&& t.len() == u.len()
    &&& forall|i: int| 0 <= i < t.len() ==> #[trigger] t[i].0 == u[i].0
}

/// Whether a token stream is a program depends only on the kinds of its
/// tokens, not on their lines: texts that differ only in blanks, comments,
/// names or constant values are accepted or rejected together.
pub proof fn lemma_success_depends_on_kinds(t: Toks, u: Toks)
    requires
        same_kinds(t, u),
    ensures
        grammar::program(t, 0) is Ok <==> grammar::program(u, 0) is Ok,
{
    if grammar::program(t, 0) is Ok {
        lemma_program_ends_at_end(t, 0);
        agrees_program(t, u, 0, 0, t.len() as int, 0);
    }
    if grammar::program(u, 0) is Ok {
        lemma_program_ends_at_end(u, 0);
        assert forall|i: int| 0 <= i < u.len() implies #[trigger] u[i].0 == t[i + 0].0 by {
            assert(t[i].0 == u[i].0);
        }
        agrees_program(u, t, 0, 0, u.len() as int, 0);
    }
}

/// A function definition found at `pos` in `t1` is found, the same, in
/// `t1` followed by anything.
proof fn lemma_definition_extends(t1: Toks, t2: Toks, pos: int)
    requires
        0 <= pos <= t1.len(),
    ensures
        grammar::functiondefinition(t1, pos) is Ok ==> grammar::functiondefinition(t1 + t2, pos)
            == grammar::functiondefinition(t1, pos),
{
    let u = t1 + t2;
    lemma_functiondefinition(t1, pos);
    assert forall|i: int| 0 <= i < t1.len() implies #[trigger] t1[i].0 == u[i + 0].0 by {
        assert(u[i] == t1[i]);
    }
    agrees_functiondefinition(t1, u, 0, 0, t1.len() as int, pos);
}

proof fn lemma_join_from(t1: Toks, t2: Toks, pos: int)
    requires
        0 <= pos <= t1.len(),
        grammar::program(t1, pos) is Ok,
        grammar::program(t2, 0) is Ok,
    ensures
        grammar::program(t1 + t2, pos) is Ok,
    decreases t1.len() - pos,
{
    let u = t1 + t2;
    lemma_functiondefinition(t1, pos);
    if grammar::at_end(t1, pos) {
        lemma_program_ends_at_end(t2, 0);
        assert forall|i: int| 0 <= i < t2.len() implies #[trigger] t2[i].0 == u[i + t1.len()].0 by {
            assert(u[i + t1.len()] == t2[i]);
        }
        agrees_program(t2, u, t1.len() as int, 0, t2.len() as int, 0);
    } else {
        assert(u[pos] == t1[pos]);
        lemma_definition_extends(t1, t2, pos);
        if let Ok(p) = grammar::functiondefinition(t1, pos) {
            lemma_join_from(t1, t2, p);
        }
    }
}

/// Two programs written one after the other form a program.
pub proof fn lemma_joined_programs(t1: Toks, t2: Toks)
    requires
        grammar::program(t1, 0) is Ok,
        grammar::program(t2, 0) is Ok,
    ensures
        grammar::program(t1 + t2, 0) is Ok,
{
    lemma_join_from(t1, t2, 0);
}

proof fn lemma_trailing_from(t1: Toks, t2: Toks, pos: int)
    requires
        0 <= pos <= t1.len(),
        grammar::program(t1, pos) is Ok,
        t2.len() > 0,
        !grammar::type_keywords().contains(t2[0].0),
    ensures
        grammar::program(t1 + t2, pos) is Err,
    decreases t1.len() - pos,
{
    let u = t1 + t2;
    lemma_functiondefinition(t1, pos);
    if grammar::at_end(t1, pos) {
        assert(u[t1.len() as int] == t2[0]);
    } else {
        assert(u[pos] == t1[pos]);
        lemma_definition_extends(t1, t2, pos);
        if let Ok(p) = grammar::functiondefinition(t1, pos) {
            lemma_trailing_from(t1, t2, p);
        }
    }
}

/// After the last function definition the input must end: a program
/// followed by tokens that do not begin with a type keyword is rejected.
pub proof fn lemma_trailing_tokens_rejected(t1: Toks, t2: Toks)
    requires
        grammar::program(t1, 0) is Ok,
        t2.len() > 0,
        !grammar::type_keywords().contains(t2[0].0),
    ensures
        grammar::program(t1 + t2, 0) is Err,
{
    lemma_trailing_from(t1, t2, 0);
}

/// `t[a..b]` is, on its own, one whole function definition.
pub open spec fn is_definition(t: Toks, a: int, b: int) -> bool {
    &&& 0 <= a < b <= t.len()
    &&& grammar::functiondefinition(t.subrange(a, b), 0) == Ok::<int, (Seq<char>, int)>(b - a)
}

/// `cuts` splits `t` from `pos` to its end into whole function definitions:
/// a derivation of `( functiondefinition )* <EOF>`.
pub open spec fn splits_into_definitions(t: Toks, pos: int, cuts: Seq<int>) -> bool {
    &&& cuts.len() >= 1
    &&& cuts[0] == pos
    &&& cuts.last() == t.len()
    &&& forall|i: int| 0 <= i < cuts.len() - 1 ==> is_definition(t, #[trigger] cuts[i], cuts[i + 1])
}

/// `t` derives from program ::= ( functiondefinition )* <EOF>.
pub open spec fn is_program(t: Toks) -> bool {
    exists|cuts: Seq<int>| splits_into_definitions(t, 0, cuts)
}

/// A definition read at `pos` of `t` reads the same alone, cut out of `t`.
proof fn lemma_definition_cut(t: Toks, a: int, b: int)
    requires
        0 <= a <= t.len(),
        grammar::functiondefinition(t, a) == Ok::<int, (Seq<char>, int)>(b),
    ensures
        is_definition(t, a, b),
{
    lemma_functiondefinition(t, a);
    let seg = t.subrange(a, b);
    assert forall|i: int| a <= i < b implies #[trigger] t[i].0 == seg[i + (-a)].0 by {
        assert(seg[i - a] == t[i]);
    }
    agrees_functiondefinition(t, seg, -a, a, b, a);
}

/// A definition cut out of `t` at `[a, b)` is read the same inside `t`.
proof fn lemma_definition_paste(t: Toks, a: int, b: int)
    requires
        is_definition(t, a, b),
    ensures
        grammar::functiondefinition(t, a) == Ok::<int, (Seq<char>, int)>(b),
{
    let seg = t.subrange(a, b);
    assert forall|i: int| 0 <= i < seg.len() implies #[trigger] seg[i].0 == t[i + a].0 by {
        assert(seg[i] == t[i + a]);
    }
    agrees_functiondefinition(seg, t, a, 0, seg.len() as int, 0);
}

proof fn lemma_program_splits(t: Toks, pos: int) -> (cuts: Seq<int>)
    requires
        0 <= pos <= t.len(),
        grammar::program(t, pos) is Ok,
    ensures
        splits_into_definitions(t, pos, cuts),
    decreases t.len() - pos,
{
    lemma_functiondefinition(t, pos);
    if grammar::at_end(t, pos) {
        seq![pos]
    } else {
        let p = grammar::functiondefinition(t, pos)->Ok_0;
        lemma_definition_cut(t, pos, p);
        let rest = lemma_program_splits(t, p);
        let cuts = seq![pos] + rest;
        assert forall|i: int| 0 <= i < cuts.len() - 1 implies is_definition(
            t,
            #[trigger] cuts[i],
            cuts[i + 1],
        ) by {
            if i > 0 {
                assert(cuts[i] == rest[i - 1]);
                assert(cuts[i + 1] == rest[i]);
            }
        }
        cuts
    }
}

proof fn lemma_splits_program(t: Toks, cuts: Seq<int>, k: int)
    requires
        splits_into_definitions(t, cuts[0], cuts),
        0 <= k < cuts.len(),
        0 <= cuts[0],
    ensures
        grammar::program(t, cuts[k]) is Ok,
    decreases cuts.len() - k,
{
    if k < cuts.len() - 1 {
        assert(is_definition(t, cuts[k], cuts[k + 1]));
        lemma_splits_program(t, cuts, k + 1);
        lemma_definition_paste(t, cuts[k], cuts[k + 1]);
        lemma_functiondefinition(t, cuts[k]);
    }
}

/// The program rule accepts exactly the token streams that derive from
/// program ::= ( functiondefinition )* <EOF>: those that split into whole
/// function definitions.
pub proof fn lemma_program_is_definitions(t: Toks)
    ensures
        grammar::program(t, 0) is Ok <==> is_program(t),
{
    if grammar::program(t, 0) is Ok {
        let cuts = lemma_program_splits(t, 0);
    }
    if is_program(t) {
        let cuts = choose|cuts: Seq<int>| splits_into_definitions(t, 0, cuts);
        lemma_splits_program(t, cuts, 0);
    }
}

// ---------------------------------------------------------------------
// The same laws for texts, as `C1Parser::parse` sees them
// ---------------------------------------------------------------------

/// Texts whose tokens have the same kinds are accepted or rejected together.
pub proof fn lemma_texts_with_same_kinds(a: Seq<char>, b: Seq<char>)
    requires
        same_kinds(lex(a), lex(b)),
    ensures
        grammar::program(lex(a), 0) is Ok <==> grammar::program(lex(b), 0) is Ok,
{
    lemma_success_depends_on_kinds(lex(a), lex(b));
}

/// A text whose tokens are, kind for kind, those of two programs one after
/// the other is a program.
pub proof fn lemma_joined_texts(a: Seq<char>, b: Seq<char>, c: Seq<char>)
    requires
        grammar::program(lex(a), 0) is Ok,
        grammar::program(lex(b), 0) is Ok,
        same_kinds(lex(c), lex(a) + lex(b)),
    ensures
        grammar::program(lex(c), 0) is Ok,
{
    lemma_joined_programs(lex(a), lex(b));
    lemma_success_depends_on_kinds(lex(c), lex(a) + lex(b));
}

/// A text whose tokens are, kind for kind, those of a program followed by
/// tokens that do not begin with a type keyword is rejected.
pub proof fn lemma_text_with_trailing_tokens(a: Seq<char>, b: Seq<char>, c: Seq<char>)
    requires
        grammar::program(lex(a), 0) is Ok,
        lex(b).len() > 0,
        !grammar::type_keywords().contains(lex(b)[0].0),
        same_kinds(lex(c), lex(a) + lex(b)),
    ensures
        grammar::program(lex(c), 0) is Err,
{
    lemma_trailing_tokens_rejected(lex(a), lex(b));
    lemma_success_depends_on_kinds(lex(c), lex(a) + lex(b));
}

} // verus!
