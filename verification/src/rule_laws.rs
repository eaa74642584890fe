//! How each rule of the grammar is built from the others: what a rule
//! accepts, stated through the rules it is made of.
use vstd::prelude::*;
use crate::grammar;
use crate::grammar::Toks;
use crate::laws::{
    lemma_assignment,
    lemma_block,
    lemma_check_tokens_exact,
    lemma_factor,
    lemma_factor2,
    lemma_factoroi,
    lemma_simpexpr,
    lemma_simpexpr2,
    lemma_simpexprmi,
    lemma_simpexproi,
    lemma_term,
    lemma_term2,
    lemma_termmi,
    lemma_termoi,
    spells_at,
};
use crate::lexer::{C1Token, cur};

verus! {

/// The token at `q` is `k`.
pub open spec fn is_at(t: Toks, q: int, k: C1Token) -> bool {
    cur(t, q) == Some(k)
}

/// `r` succeeds and the token right after what it read is `k`.
pub open spec fn then_token(t: Toks, r: grammar::PRes, k: C1Token) -> bool {
    match r {
        Ok(q) => is_at(t, q, k),
        Err(_) => false,
    }
}

/// Where `r` left the cursor.
pub open spec fn end(r: grammar::PRes) -> int {
    match r {
        Ok(q) => q,
        Err(e) => e.1,
    }
}

pub open spec fn ok(p: int) -> Result<int, (Seq<char>, int)> {
    Ok(p)
}

// ---------------------------------------------------------------------
// Statements
// ---------------------------------------------------------------------

/// The body of an if statement is any block, braced or a single statement:
/// after `if ( condition )` the if statement succeeds exactly when a block
/// read from there succeeds, and ends where that block ends.
pub proof fn lemma_if_body_is_any_block(t: Toks, pos: int, c: int)
    requires
        0 <= pos,
        is_at(t, pos, C1Token::KwIf),
        is_at(t, pos + 1, C1Token::LeftParenthesis),
        grammar::assignment(t, pos + 2) == ok(c),
        is_at(t, c, C1Token::RightParenthesis),
    ensures
        grammar::if_statement(t, pos) is Ok <==> grammar::block(t, c + 1) is Ok,
        grammar::block(t, c + 1) matches Ok(p) ==> grammar::if_statement(t, pos) == ok(p),
{
    lemma_assignment(t, pos + 2);
}

/// A successful if statement is `if ( condition ) block`, with any
/// assignment as its condition.
pub proof fn lemma_if_statement_parts(t: Toks, pos: int)
    requires
        0 <= pos,
        grammar::if_statement(t, pos) is Ok,
    ensures
        is_at(t, pos, C1Token::KwIf),
        is_at(t, pos + 1, C1Token::LeftParenthesis),
        then_token(t, grammar::assignment(t, pos + 2), C1Token::RightParenthesis),
        grammar::if_statement(t, pos) == grammar::block(t, end(grammar::assignment(t, pos + 2)) + 1),
{
    lemma_assignment(t, pos + 2);
}

/// The argument of printf is any assignment, comparisons included:
/// `printf ( argument )` ends just after the `)` that follows it.
pub proof fn lemma_printf_takes_any_assignment(t: Toks, pos: int, c: int)
    requires
        0 <= pos,
        is_at(t, pos, C1Token::KwPrintf),
        is_at(t, pos + 1, C1Token::LeftParenthesis),
        grammar::assignment(t, pos + 2) == ok(c),
        is_at(t, c, C1Token::RightParenthesis),
    ensures
        grammar::printf(t, pos) == ok(c + 1),
{
}

/// A successful printf is `printf ( assignment )`.
pub proof fn lemma_printf_parts(t: Toks, pos: int)
    requires
        0 <= pos,
        grammar::printf(t, pos) is Ok,
    ensures
        is_at(t, pos, C1Token::KwPrintf),
        is_at(t, pos + 1, C1Token::LeftParenthesis),
        then_token(t, grammar::assignment(t, pos + 2), C1Token::RightParenthesis),
        grammar::printf(t, pos) == ok(end(grammar::assignment(t, pos + 2)) + 1),
{
}

/// A return statement is `return` alone, before `;` or the end of the
/// input, or `return` followed by any assignment.
pub proof fn lemma_return_statement_parts(t: Toks, pos: int)
    requires
        0 <= pos,
        is_at(t, pos, C1Token::KwReturn),
    ensures
        is_at(t, pos + 1, C1Token::Semicolon) || cur(t, pos + 1) is None ==> grammar::return_statement(
            t,
            pos,
        ) == ok(pos + 1),
        is_at(t, pos + 1, C1Token::Identifier) || is_at(t, pos + 1, C1Token::Minus) || is_at(
            t,
            pos + 1,
            C1Token::ConstInt,
        ) || is_at(t, pos + 1, C1Token::ConstFloat) || is_at(t, pos + 1, C1Token::ConstBoolean)
            || is_at(t, pos + 1, C1Token::LeftParenthesis) ==> grammar::return_statement(t, pos)
            == grammar::assignment(t, pos + 1),
{
}

/// A block is `{ statements }`, or one statement.
pub proof fn lemma_block_parts(t: Toks, pos: int)
    requires
        0 <= pos,
    ensures
        is_at(t, pos, C1Token::LeftBrace) ==> (grammar::block(t, pos) is Ok <==> then_token(
            t,
            grammar::statement_list(t, pos + 1),
            C1Token::RightBrace,
        )),
        is_at(t, pos, C1Token::LeftBrace) && then_token(
            t,
            grammar::statement_list(t, pos + 1),
            C1Token::RightBrace,
        ) ==> grammar::block(t, pos) == ok(end(grammar::statement_list(t, pos + 1)) + 1),
        is_at(t, pos, C1Token::Identifier) || is_at(t, pos, C1Token::KwIf) || is_at(
            t,
            pos,
            C1Token::KwReturn,
        ) || is_at(t, pos, C1Token::KwPrintf) ==> grammar::block(t, pos) == grammar::statement(t, pos),
{
}

/// A statement ends with `;`, except an if statement, which ends with its
/// body.
pub proof fn lemma_statement_parts(t: Toks, pos: int)
    requires
        0 <= pos,
    ensures
        is_at(t, pos, C1Token::KwIf) ==> grammar::statement(t, pos) == grammar::if_statement(t, pos),
        is_at(t, pos, C1Token::KwReturn) ==> (grammar::statement(t, pos) is Ok <==> then_token(
            t,
            grammar::return_statement(t, pos),
            C1Token::Semicolon,
        )),
        is_at(t, pos, C1Token::KwReturn) && then_token(
            t,
            grammar::return_statement(t, pos),
            C1Token::Semicolon,
        ) ==> grammar::statement(t, pos) == ok(end(grammar::return_statement(t, pos)) + 1),
        is_at(t, pos, C1Token::KwPrintf) ==> (grammar::statement(t, pos) is Ok <==> then_token(
            t,
            grammar::printf(t, pos),
            C1Token::Semicolon,
        )),
        is_at(t, pos, C1Token::KwPrintf) && then_token(t, grammar::printf(t, pos), C1Token::Semicolon)
            ==> grammar::statement(t, pos) == ok(end(grammar::printf(t, pos)) + 1),
        is_at(t, pos, C1Token::Identifier) ==> (grammar::statement(t, pos) is Ok <==> then_token(
            t,
            grammar::statement2(t, pos + 1),
            C1Token::Semicolon,
        )),
        is_at(t, pos, C1Token::Identifier) && then_token(
            t,
            grammar::statement2(t, pos + 1),
            C1Token::Semicolon,
        ) ==> grammar::statement(t, pos) == ok(end(grammar::statement2(t, pos + 1)) + 1),
{
}

/// `( )` at `pos` is a complete empty argument list.
proof fn lemma_empty_call(t: Toks, pos: int)
    requires
        0 <= pos,
        is_at(t, pos, C1Token::LeftParenthesis),
        is_at(t, pos + 1, C1Token::RightParenthesis),
    ensures
        grammar::function_call2(t, pos) == ok(pos + 2),
{
    let ks = [C1Token::LeftParenthesis, C1Token::RightParenthesis]@;
    lemma_check_tokens_exact(t, pos, ks, grammar::message(t, pos, "Expected: () in Line:"@));
    assert forall|j: int| 0 <= j < ks.len() implies #[trigger] t[pos + j].0 == ks[j] by {
        if j == 0 {
        } else {
        }
    }
}

/// After a name, a statement is a call `( )` or an assignment `= assignment`.
pub proof fn lemma_statement2_parts(t: Toks, pos: int)
    requires
        0 <= pos,
    ensures
        is_at(t, pos, C1Token::LeftParenthesis) && is_at(t, pos + 1, C1Token::RightParenthesis)
            ==> grammar::statement2(t, pos) == ok(pos + 2),
        is_at(t, pos, C1Token::Assign) ==> grammar::statement2(t, pos) == grammar::assignment(
            t,
            pos + 1,
        ),
{
    if is_at(t, pos, C1Token::LeftParenthesis) && is_at(t, pos + 1, C1Token::RightParenthesis) {
        lemma_empty_call(t, pos);
    }
}

/// A statement list is a run of blocks, up to a `}` or the end of the
/// input, which it does not consume.
pub proof fn lemma_statement_list_parts(t: Toks, pos: int)
    requires
        0 <= pos <= t.len(),
    ensures
        grammar::statement_list(t, pos) is Ok ==> is_at(
            t,
            end(grammar::statement_list(t, pos)),
            C1Token::RightBrace,
        ) || cur(t, end(grammar::statement_list(t, pos))) is None,
        is_at(t, pos, C1Token::RightBrace) || cur(t, pos) is None ==> grammar::statement_list(t, pos)
            == ok(pos),
        grammar::block(t, pos) is Ok ==> grammar::statement_list(t, pos) == grammar::statement_list(
            t,
            end(grammar::block(t, pos)),
        ),
    decreases t.len() - pos,
{
    lemma_block(t, pos);
    if let Ok(q) = grammar::block(t, pos) {
        if q <= t.len() {
            lemma_statement_list_parts(t, q);
        }
    }
}

/// A function definition is `type name ( ) { statements }`.
pub proof fn lemma_functiondefinition_parts(t: Toks, pos: int)
    requires
        0 <= pos,
    ensures
        grammar::functiondefinition(t, pos) is Ok <==> {
            &&& grammar::at_any(t, pos, grammar::type_keywords())
            &&& is_at(t, pos + 1, C1Token::Identifier)
            &&& is_at(t, pos + 2, C1Token::LeftParenthesis)
            &&& is_at(t, pos + 3, C1Token::RightParenthesis)
            &&& is_at(t, pos + 4, C1Token::LeftBrace)
            &&& then_token(t, grammar::statement_list(t, pos + 5), C1Token::RightBrace)
        },
        grammar::functiondefinition(t, pos) is Ok ==> grammar::functiondefinition(t, pos) == ok(
            end(grammar::statement_list(t, pos + 5)) + 1,
        ),
{
    if grammar::at_any(t, pos, grammar::type_keywords()) {
        lemma_check_tokens_exact(
            t,
            pos + 1,
            [
                C1Token::Identifier,
                C1Token::LeftParenthesis,
                C1Token::RightParenthesis,
                C1Token::LeftBrace,
            ]@,
            grammar::message(t, pos + 1, "Expected: ID () { in Line:"@),
        );
        let ks = [
            C1Token::Identifier,
            C1Token::LeftParenthesis,
            C1Token::RightParenthesis,
            C1Token::LeftBrace,
        ]@;
        if spells_at(t, pos + 1, ks) {
            assert(t[pos + 1 + 0].0 == ks[0]);
            assert(t[pos + 1 + 1].0 == ks[1]);
            assert(t[pos + 1 + 2].0 == ks[2]);
            assert(t[pos + 1 + 3].0 == ks[3]);
        }
        if is_at(t, pos + 1, C1Token::Identifier) && is_at(t, pos + 2, C1Token::LeftParenthesis)
            && is_at(t, pos + 3, C1Token::RightParenthesis) && is_at(t, pos + 4, C1Token::LeftBrace) {
            assert forall|j: int| 0 <= j < ks.len() implies #[trigger] t[pos + 1 + j].0 == ks[j] by {
                if j == 0 {
                } else if j == 1 {
                } else if j == 2 {
                } else {
                }
            }
        }
    }
}

// ---------------------------------------------------------------------
// Expressions
// ---------------------------------------------------------------------

/// `name = value` is an assignment whose value is again any assignment.
pub proof fn lemma_assignment_chain(t: Toks, pos: int)
    requires
        0 <= pos,
        is_at(t, pos, C1Token::Identifier),
        is_at(t, pos + 1, C1Token::Assign),
    ensures
        grammar::assignment(t, pos) == grammar::assignment(t, pos + 2),
{
}


/// After a leading name, the rest of a term reads as the whole term does.
proof fn lemma_term_after_name(t: Toks, pos: int)
    requires
        0 <= pos < t.len(),
        is_at(t, pos, C1Token::Identifier),
    ensures
        grammar::termmi(t, pos + 1) == grammar::term(t, pos),
{
    lemma_factor2(t, pos + 1);
    assert(grammar::factor(t, pos) == grammar::factor2(t, pos + 1));
    if let Ok(p) = grammar::factor2(t, pos + 1) {
        lemma_term2(t, p);
    }
}

/// After a leading name, the rest of a simple expression reads as the whole
/// simple expression does.
proof fn lemma_simpexpr_after_name(t: Toks, pos: int)
    requires
        0 <= pos < t.len(),
        is_at(t, pos, C1Token::Identifier),
    ensures
        grammar::simpexprmi(t, pos + 1) == grammar::simpexpr(t, pos),
{
    lemma_term_after_name(t, pos);
    lemma_term(t, pos);
    lemma_termmi(t, pos + 1);
    if let Ok(p) = grammar::term(t, pos) {
        lemma_simpexpr2(t, p);
    }
}

/// After a leading name, the rest of an expression reads as the whole
/// expression does.
proof fn lemma_expr_after_name(t: Toks, pos: int)
    requires
        0 <= pos < t.len(),
        is_at(t, pos, C1Token::Identifier),
    ensures
        grammar::exprmi(t, pos + 1) == grammar::expr(t, pos),
{
    lemma_simpexpr_after_name(t, pos);
    lemma_simpexpr(t, pos);
    lemma_simpexprmi(t, pos + 1);
}

/// A simple expression that does not start with a name reads as any simple
/// expression does.
proof fn lemma_simpexpr_without_name(t: Toks, pos: int)
    requires
        0 <= pos <= t.len(),
        !is_at(t, pos, C1Token::Identifier),
    ensures
        grammar::simpexproi(t, pos) is Ok <==> grammar::simpexpr(t, pos) is Ok,
        grammar::simpexproi(t, pos) is Ok ==> grammar::simpexproi(t, pos) == grammar::simpexpr(t, pos),
{
    lemma_simpexproi(t, pos);
    lemma_simpexpr(t, pos);
    lemma_termoi(t, pos);
    lemma_term(t, pos);
    lemma_factoroi(t, pos);
    lemma_factor(t, pos);
    if pos < t.len() {
        lemma_term(t, pos + 1);
    }
}

/// After a leading name that no `=` follows, the rest of an assignment is the
/// rest of an expression.
#[verifier::rlimit(40)]
proof fn lemma_rest_after_name(t: Toks, q: int)
    requires
        0 <= q <= t.len(),
        !is_at(t, q, C1Token::Assign),
    ensures
        grammar::assignment2(t, q) is Ok <==> grammar::exprmi(t, q) is Ok,
        grammar::assignment2(t, q) is Ok ==> grammar::assignment2(t, q) == grammar::exprmi(t, q),
{
    if grammar::at_any(t, q, [C1Token::RightParenthesis, C1Token::Semicolon]@) || grammar::at_end(
        t,
        q,
    ) {
    } else if grammar::at_any(t, q, grammar::relations()) {
    } else if grammar::at_any(t, q, grammar::term_follow()) {
        assert(grammar::termmi(t, q) == Ok::<int, (Seq<char>, int)>(q));
    } else {
        assert(grammar::termmi(t, q) == grammar::factor2(t, q) || grammar::factor2(t, q) is Ok);
    }
}

/// An assignment that does not start with a name is an expression.
proof fn lemma_expression_without_name(t: Toks, pos: int)
    requires
        0 <= pos <= t.len(),
        !is_at(t, pos, C1Token::Identifier),
    ensures
        grammar::assignment(t, pos) is Ok <==> grammar::expr(t, pos) is Ok,
        grammar::assignment(t, pos) is Ok ==> grammar::assignment(t, pos) == grammar::expr(t, pos),
{
    lemma_simpexpr_without_name(t, pos);
    lemma_simpexproi(t, pos);
    lemma_simpexpr(t, pos);
    lemma_term(t, pos);
    lemma_factor(t, pos);
}

/// An assignment that is not of the form `name = ...` is an expression:
/// it succeeds exactly where an expression read from the same place
/// succeeds, and ends at the same place.
pub proof fn lemma_assignment_is_expression(t: Toks, pos: int)
    requires
        0 <= pos <= t.len(),
        !(is_at(t, pos, C1Token::Identifier) && is_at(t, pos + 1, C1Token::Assign)),
    ensures
        grammar::assignment(t, pos) is Ok <==> grammar::expr(t, pos) is Ok,
        grammar::assignment(t, pos) matches Ok(p) ==> grammar::expr(t, pos) == ok(p),
{
    if is_at(t, pos, C1Token::Identifier) {
        lemma_expr_after_name(t, pos);
        lemma_rest_after_name(t, pos + 1);
    } else {
        lemma_expression_without_name(t, pos);
    }
}

/// A factor: a constant, a name, a call `name ( )`, or a parenthesised
/// assignment.
pub proof fn lemma_factor_parts(t: Toks, pos: int)
    requires
        0 <= pos,
    ensures
        is_at(t, pos, C1Token::ConstInt) || is_at(t, pos, C1Token::ConstFloat) || is_at(
            t,
            pos,
            C1Token::ConstBoolean,
        ) ==> grammar::factor(t, pos) == ok(pos + 1),
        is_at(t, pos, C1Token::Identifier) && is_at(t, pos + 1, C1Token::LeftParenthesis) && is_at(
            t,
            pos + 2,
            C1Token::RightParenthesis,
        ) ==> grammar::factor(t, pos) == ok(pos + 3),
        is_at(t, pos, C1Token::LeftParenthesis) ==> (grammar::factor(t, pos) is Ok <==> then_token(
            t,
            grammar::assignment(t, pos + 1),
            C1Token::RightParenthesis,
        )),
        is_at(t, pos, C1Token::LeftParenthesis) && then_token(
            t,
            grammar::assignment(t, pos + 1),
            C1Token::RightParenthesis,
        ) ==> grammar::factor(t, pos) == ok(end(grammar::assignment(t, pos + 1)) + 1),
{
    if is_at(t, pos, C1Token::Identifier) && is_at(t, pos + 1, C1Token::LeftParenthesis) && is_at(
        t,
        pos + 2,
        C1Token::RightParenthesis,
    ) {
        lemma_empty_call(t, pos + 1);
    }
}

// ---------------------------------------------------------------------
// Single tokens and the pieces of expressions
// ---------------------------------------------------------------------

/// A type is exactly one of `bool`, `float`, `int`, `void`.
pub proof fn lemma_return_type_tokens(t: Toks, pos: int)
    requires
        0 <= pos,
    ensures
        grammar::return_type(t, pos) is Ok <==> (is_at(t, pos, C1Token::KwBoolean) || is_at(
            t,
            pos,
            C1Token::KwFloat,
        ) || is_at(t, pos, C1Token::KwInt) || is_at(t, pos, C1Token::KwVoid)),
        grammar::return_type(t, pos) is Ok ==> grammar::return_type(t, pos) == ok(pos + 1),
{
}

/// A comparison operator is exactly one of `>`, `<`, `>=`, `<=`, `==`, `!=`.
pub proof fn lemma_operator_tokens(t: Toks, pos: int)
    requires
        0 <= pos,
    ensures
        grammar::operator(t, pos) is Ok <==> (is_at(t, pos, C1Token::Greater) || is_at(
            t,
            pos,
            C1Token::Less,
        ) || is_at(t, pos, C1Token::GreaterEqual) || is_at(t, pos, C1Token::LessEqual) || is_at(
            t,
            pos,
            C1Token::Equal,
        ) || is_at(t, pos, C1Token::NotEqual)),
        grammar::operator(t, pos) is Ok ==> grammar::operator(t, pos) == ok(pos + 1),
{
}

/// A function call is exactly `name ( )`.
pub proof fn lemma_function_call_tokens(t: Toks, pos: int)
    requires
        0 <= pos,
    ensures
        grammar::function_call(t, pos) is Ok <==> (is_at(t, pos, C1Token::Identifier) && is_at(
            t,
            pos + 1,
            C1Token::LeftParenthesis,
        ) && is_at(t, pos + 2, C1Token::RightParenthesis)),
        grammar::function_call(t, pos) is Ok ==> grammar::function_call(t, pos) == ok(pos + 3),
{
    if is_at(t, pos, C1Token::Identifier) {
        let ks = [C1Token::LeftParenthesis, C1Token::RightParenthesis]@;
        lemma_check_tokens_exact(t, pos + 1, ks, grammar::message(t, pos + 1, "Expected: () in Line:"@));
        if spells_at(t, pos + 1, ks) {
            assert(t[pos + 1 + 0].0 == ks[0]);
            assert(t[pos + 1 + 1].0 == ks[1]);
        }
        if is_at(t, pos + 1, C1Token::LeftParenthesis) && is_at(t, pos + 2, C1Token::RightParenthesis) {
            lemma_empty_call(t, pos + 1);
        }
    }
}

/// An assignment statement is `name = assignment`.
pub proof fn lemma_stat_assignment_parts(t: Toks, pos: int)
    requires
        0 <= pos,
    ensures
        is_at(t, pos, C1Token::Identifier) && is_at(t, pos + 1, C1Token::Assign)
            ==> grammar::stat_assignment(t, pos) == grammar::assignment(t, pos + 2),
        !(is_at(t, pos, C1Token::Identifier) && is_at(t, pos + 1, C1Token::Assign))
            ==> grammar::stat_assignment(t, pos) is Err,
{
    let ks = [C1Token::Identifier, C1Token::Assign]@;
    if pos <= t.len() {
        lemma_check_tokens_exact(t, pos, ks, grammar::message(t, pos, "Expected: ID = in Line:"@));
        if spells_at(t, pos, ks) {
            assert(t[pos + 0].0 == ks[0]);
            assert(t[pos + 1].0 == ks[1]);
        }
        if is_at(t, pos, C1Token::Identifier) && is_at(t, pos + 1, C1Token::Assign) {
            assert forall|j: int| 0 <= j < ks.len() implies #[trigger] t[pos + j].0 == ks[j] by {
                if j == 0 {
                } else {
                }
            }
        }
    } else {
        lemma_check_tokens_exact(t, t.len() as int, ks, grammar::message(t, pos, "Expected: ID = in Line:"@));
    }
}

/// An expression is a simple expression, optionally compared with a second
/// one; it ends before a `)`, a `;` or the end of the input.
pub proof fn lemma_expr_parts(t: Toks, pos: int)
    requires
        0 <= pos <= t.len(),
    ensures
        grammar::simpexpr(t, pos) is Ok && grammar::at_any(
            t,
            end(grammar::simpexpr(t, pos)),
            grammar::relations(),
        ) ==> grammar::expr(t, pos) == grammar::simpexpr(t, end(grammar::simpexpr(t, pos)) + 1),
        grammar::simpexpr(t, pos) is Ok && (is_at(
            t,
            end(grammar::simpexpr(t, pos)),
            C1Token::RightParenthesis,
        ) || is_at(t, end(grammar::simpexpr(t, pos)), C1Token::Semicolon) || cur(
            t,
            end(grammar::simpexpr(t, pos)),
        ) is None) ==> grammar::expr(t, pos) == grammar::simpexpr(t, pos),
{
    lemma_simpexpr(t, pos);
}

/// A simple expression is an optional `-`, then terms joined by `+`, `-` or
/// `||`; it ends before a comparison, a `)`, a `;` or the end of the input.
pub proof fn lemma_simpexpr_parts(t: Toks, pos: int)
    requires
        0 <= pos <= t.len(),
    ensures
        is_at(t, pos, C1Token::Minus) && grammar::term(t, pos + 1) is Ok ==> grammar::simpexpr(t, pos)
            == grammar::simpexpr2(t, end(grammar::term(t, pos + 1))),
        !is_at(t, pos, C1Token::Minus) && grammar::term(t, pos) is Ok ==> grammar::simpexpr(t, pos)
            == grammar::simpexpr2(t, end(grammar::term(t, pos))),
        (is_at(t, pos, C1Token::Plus) || is_at(t, pos, C1Token::Minus) || is_at(t, pos, C1Token::Or))
            && grammar::term(t, pos + 1) is Ok ==> grammar::simpexpr2(t, pos) == grammar::simpexpr2(
            t,
            end(grammar::term(t, pos + 1)),
        ),
        grammar::at_any(t, pos, grammar::relations()) || is_at(t, pos, C1Token::RightParenthesis)
            || is_at(t, pos, C1Token::Semicolon) || cur(t, pos) is None ==> grammar::simpexpr2(t, pos)
            == ok(pos),
{
    lemma_term(t, pos);
    if pos < t.len() {
        lemma_term(t, pos + 1);
    }
}

/// A term is factors joined by `*`, `/` or `&&`; it ends before a
/// comparison, `+`, `-`, `||`, `)`, `;` or the end of the input.
pub proof fn lemma_term_parts(t: Toks, pos: int)
    requires
        0 <= pos <= t.len(),
    ensures
        grammar::factor(t, pos) is Ok ==> grammar::term(t, pos) == grammar::term2(
            t,
            end(grammar::factor(t, pos)),
        ),
        (is_at(t, pos, C1Token::Asterisk) || is_at(t, pos, C1Token::Slash) || is_at(
            t,
            pos,
            C1Token::And,
        )) && grammar::factor(t, pos + 1) is Ok ==> grammar::term2(t, pos) == grammar::term2(
            t,
            end(grammar::factor(t, pos + 1)),
        ),
        grammar::at_any(t, pos, grammar::term_follow()) || cur(t, pos) is None ==> grammar::term2(
            t,
            pos,
        ) == ok(pos),
{
    lemma_factor(t, pos);
    if pos < t.len() {
        lemma_factor(t, pos + 1);
    }
}

/// A name in a factor may be followed by an empty call `( )`; otherwise it
/// stands alone before any operator, `)`, `;` or the end of the input.
pub proof fn lemma_factor2_parts(t: Toks, pos: int)
    requires
        0 <= pos,
    ensures
        is_at(t, pos, C1Token::LeftParenthesis) && is_at(t, pos + 1, C1Token::RightParenthesis)
            ==> grammar::factor2(t, pos) == ok(pos + 2),
        grammar::at_any(t, pos, grammar::term_follow()) || is_at(t, pos, C1Token::Asterisk) || is_at(
            t,
            pos,
            C1Token::Slash,
        ) || is_at(t, pos, C1Token::And) || cur(t, pos) is None ==> grammar::factor2(t, pos) == ok(pos),
{
    if is_at(t, pos, C1Token::LeftParenthesis) && is_at(t, pos + 1, C1Token::RightParenthesis) {
        lemma_empty_call(t, pos);
    }
}

} // verus!
