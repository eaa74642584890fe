//! What the C1 parser decides: for each nonterminal, the position it reaches
//! in a token stream, or the message it fails with.
//!
//! The grammar is LL(1): each nonterminal looks at the current token only.
//! Every failure message names what was expected and the line of the token
//! that stood there (`Unknown` at the end of the input).
use vstd::prelude::*;
use crate::lexer::{C1Token, cur, cur_line};

verus! {

/// A parse outcome: the position after the recognised text, or a message
/// together with the position the cursor was left at when the rule failed.
pub type PRes = Result<int, (Seq<char>, int)>;

pub type Toks = Seq<(C1Token, nat)>;

// ---------------------------------------------------------------------
// Line numbers in messages
// ---------------------------------------------------------------------

pub open spec fn digit_char(d: nat) -> char {
    if d == 0 {
        '0'
    } else if d == 1 {
        '1'
    } else if d == 2 {
        '2'
    } else if d == 3 {
        '3'
    } else if d == 4 {
        '4'
    } else if d == 5 {
        '5'
    } else if d == 6 {
        '6'
    } else if d == 7 {
        '7'
    } else if d == 8 {
        '8'
    } else {
        '9'
    }
}

/// The decimal digits of `n`, most significant first.
pub open spec fn decimal(n: nat) -> Seq<char>
    decreases n,
{
    if n < 10 {
        seq![digit_char(n)]
    } else {
        decimal(n / 10).push(digit_char(n % 10))
    }
}

/// How a message names a line: its number, or `Unknown` past the last token.
pub open spec fn line_text(line: Option<nat>) -> Seq<char> {
    match line {
        Some(n) => decimal(n),
        None => "Unknown"@,
    }
}

/// The message `text` followed by the line of the token at `pos`.
pub open spec fn message(t: Toks, pos: int, text: Seq<char>) -> Seq<char> {
    text + line_text(cur_line(t, pos))
}

// ---------------------------------------------------------------------
// Looking at the current token
// ---------------------------------------------------------------------

/// The current token is one of `ks`.
pub open spec fn at_any(t: Toks, pos: int, ks: Seq<C1Token>) -> bool {
    cur(t, pos) matches Some(k) && ks.contains(k)
}

/// There is no current token.
pub open spec fn at_end(t: Toks, pos: int) -> bool {
    cur(t, pos) is None
}

/// Fails at `pos` without consuming anything.
pub open spec fn fail(t: Toks, pos: int, text: Seq<char>) -> PRes {
    Err((message(t, pos, text), pos))
}

/// `p` lies in `[pos, t.len()]`.
pub open spec fn within(t: Toks, pos: int, p: int) -> bool {
    pos <= p <= t.len()
}

/// `p` lies in `(pos, t.len()]`.
pub open spec fn beyond(t: Toks, pos: int, p: int) -> bool {
    pos < p <= t.len()
}

/// Consumes the current token if it is `k`; fails with `msg` otherwise,
/// consuming nothing.
pub open spec fn check_token(t: Toks, pos: int, k: C1Token, msg: Seq<char>) -> PRes {
    if cur(t, pos) == Some(k) {
        Ok(pos + 1)
    } else {
        Err((msg, pos))
    }
}

/// Goes through `ks` in order; each one that equals the current token is
/// consumed, each other one is a mismatch. Gives the position reached and
/// whether nothing mismatched.
pub open spec fn eat_matching(t: Toks, pos: int, ks: Seq<C1Token>) -> (int, bool)
    decreases ks.len(),
{
    if ks.len() == 0 {
        (pos, true)
    } else {
        let hit = cur(t, pos) == Some(ks[0]);
        let rest = eat_matching(t, if hit { pos + 1 } else { pos }, ks.drop_first());
        (rest.0, hit && rest.1)
    }
}

/// `eat_matching` with a failure message when anything mismatched; the
/// tokens that did match stay consumed.
pub open spec fn check_tokens(t: Toks, pos: int, ks: Seq<C1Token>, msg: Seq<char>) -> PRes {
    let r = eat_matching(t, pos, ks);
    if r.1 {
        Ok(r.0)
    } else {
        Err((msg, r.0))
    }
}

/// `check_token` with the message `text` and the line at `pos`.
pub open spec fn expect(t: Toks, pos: int, k: C1Token, text: Seq<char>) -> PRes {
    check_token(t, pos, k, message(t, pos, text))
}

/// `check_tokens` with the message `text` and the line at `pos`.
pub open spec fn expect_all(t: Toks, pos: int, ks: Seq<C1Token>, text: Seq<char>) -> PRes {
    check_tokens(t, pos, ks, message(t, pos, text))
}

// ---------------------------------------------------------------------
// Token sets
// ---------------------------------------------------------------------

pub open spec fn type_keywords() -> Seq<C1Token> {
    [C1Token::KwBoolean, C1Token::KwFloat, C1Token::KwInt, C1Token::KwVoid]@
}

pub open spec fn relations() -> Seq<C1Token> {
    [
        C1Token::Greater,
        C1Token::Less,
        C1Token::GreaterEqual,
        C1Token::LessEqual,
        C1Token::Equal,
        C1Token::NotEqual,
    ]@
}

// ---------------------------------------------------------------------
// Programs and statements
// ---------------------------------------------------------------------

/// program ::= ( functiondefinition )* <EOF>
pub open spec fn program(t: Toks, pos: int) -> PRes
    decreases t.len() - pos,
{
    if at_end(t, pos) {
        Ok(pos)
    } else if at_any(t, pos, type_keywords()) {
        match functiondefinition(t, pos) {
            Ok(p) => if beyond(t, pos, p) {
                program(t, p)
            } else {
                Ok(p)
            },
            Err(m) => Err(m),
        }
    } else {
        fail(t, pos, "Expected: KwBoolean or KwFloat or KwInt or KwVoid or EOF in Line:"@)
    }
}

/// functiondefinition ::= type ID "(" ")" "{" statementlist "}"
pub open spec fn functiondefinition(t: Toks, pos: int) -> PRes {
    if at_any(t, pos, type_keywords()) {
        match return_type(t, pos) {
            Ok(p1) => match expect_all(
                t,
                p1,
                [
                    C1Token::Identifier,
                    C1Token::LeftParenthesis,
                    C1Token::RightParenthesis,
                    C1Token::LeftBrace,
                ]@,
                "Expected: ID () { in Line:"@,
            ) {
                Ok(p2) => match statement_list(t, p2) {
                    Ok(p3) => expect(t, p3, C1Token::RightBrace, "Expected: } in Line:"@),
                    Err(m) => Err(m),
                },
                Err(m) => Err(m),
            },
            Err(m) => Err(m),
        }
    } else {
        fail(t, pos, "Expected: KwBoolean or KwFloat or KwInt or KwVoid in Line:"@)
    }
}

/// functioncall ::= ID "(" ")"
pub open spec fn function_call(t: Toks, pos: int) -> PRes {
    match expect(t, pos, C1Token::Identifier, "Expected: ID in Line:"@) {
        Ok(p) => expect_all(
            t,
            p,
            [C1Token::LeftParenthesis, C1Token::RightParenthesis]@,
            "Expected: () in Line:"@,
        ),
        Err(m) => Err(m),
    }
}

/// The part of a function call after its name: "(" ")".
pub open spec fn function_call2(t: Toks, pos: int) -> PRes {
    expect_all(
        t,
        pos,
        [C1Token::LeftParenthesis, C1Token::RightParenthesis]@,
        "Expected: () in Line:"@,
    )
}

/// statementlist ::= ( block )*, up to a "}" or the end of the input.
pub open spec fn statement_list(t: Toks, pos: int) -> PRes
    decreases t.len() - pos, 4int,
{
    if at_any(
        t,
        pos,
        [
            C1Token::LeftBrace,
            C1Token::Identifier,
            C1Token::KwIf,
            C1Token::KwReturn,
            C1Token::KwPrintf,
        ]@,
    ) {
        match block(t, pos) {
            Ok(p) => if beyond(t, pos, p) {
                statement_list(t, p)
            } else {
                Ok(p)
            },
            Err(m) => Err(m),
        }
    } else if at_any(t, pos, [C1Token::RightBrace]@) || at_end(t, pos) {
        Ok(pos)
    } else {
        fail(t, pos, "Expected: { or ID or KwIf or KwReturn or KwPrintf or } in Line:"@)
    }
}

/// block ::= "{" statementlist "}" | statement
pub open spec fn block(t: Toks, pos: int) -> PRes
    decreases t.len() - pos, 3int,
{
    if at_any(t, pos, [C1Token::LeftBrace]@) {
        match statement_list(t, pos + 1) {
            Ok(p) => expect(t, p, C1Token::RightBrace, "Expected: } in Line:"@),
            Err(m) => Err(m),
        }
    } else if at_any(
        t,
        pos,
        [C1Token::Identifier, C1Token::KwIf, C1Token::KwReturn, C1Token::KwPrintf]@,
    ) {
        statement(t, pos)
    } else {
        fail(t, pos, "Expected: { or ID or KwIf or KwReturn or KwPrintf in Line:"@)
    }
}

/// statement ::= ifstatement | returnstatement ";" | printf ";" | ID statement2 ";"
pub open spec fn statement(t: Toks, pos: int) -> PRes
    decreases t.len() - pos, 2int,
{
    if at_any(t, pos, [C1Token::KwIf]@) {
        if_statement(t, pos)
    } else if at_any(t, pos, [C1Token::KwReturn]@) {
        match return_statement(t, pos) {
            Ok(p) => expect(t, p, C1Token::Semicolon, "Expected: ; in Line:"@),
            Err(m) => Err(m),
        }
    } else if at_any(t, pos, [C1Token::KwPrintf]@) {
        match printf(t, pos) {
            Ok(p) => expect(t, p, C1Token::Semicolon, "Expected: ; in Line:"@),
            Err(m) => Err(m),
        }
    } else if at_any(t, pos, [C1Token::Identifier]@) {
        match statement2(t, pos + 1) {
            Ok(p) => expect(t, p, C1Token::Semicolon, "Expected: ; in Line:"@),
            Err(m) => Err(m),
        }
    } else {
        fail(t, pos, "Expected: KwIf or KwReturn or KwPrintf or ID in Line:"@)
    }
}

/// The part of a statement after its leading name: a call or an assignment.
pub open spec fn statement2(t: Toks, pos: int) -> PRes {
    if at_any(t, pos, [C1Token::LeftParenthesis]@) {
        function_call2(t, pos)
    } else if at_any(t, pos, [C1Token::Assign]@) {
        stat_assignment2(t, pos)
    } else {
        fail(t, pos, "Expected: ( or = in Line:"@)
    }
}

/// ifstatement ::= "if" "(" assignment ")" block
pub open spec fn if_statement(t: Toks, pos: int) -> PRes
    decreases t.len() - pos, 1int,
{
    if at_any(t, pos, [C1Token::KwIf]@) {
        match expect(t, pos + 1, C1Token::LeftParenthesis, "Expected: ( in Line:"@) {
            Ok(p1) => match assignment(t, p1) {
                Ok(p2) => match expect(t, p2, C1Token::RightParenthesis, "Expected: ) in Line:"@) {
                    Ok(p3) => if beyond(t, pos, p3) {
                        block(t, p3)
                    } else {
                        Ok(p3)
                    },
                    Err(m) => Err(m),
                },
                Err(m) => Err(m),
            },
            Err(m) => Err(m),
        }
    } else {
        fail(t, pos, "Expected: KwIf in Line:"@)
    }
}

/// returnstatement ::= "return" ( assignment )?
pub open spec fn return_statement(t: Toks, pos: int) -> PRes {
    if at_any(t, pos, [C1Token::KwReturn]@) {
        return_statement2(t, pos + 1)
    } else {
        fail(t, pos, "Expected: KwReturn in Line:"@)
    }
}

/// The optional value of a return statement.
pub open spec fn return_statement2(t: Toks, pos: int) -> PRes {
    if at_any(
        t,
        pos,
        [
            C1Token::Identifier,
            C1Token::Minus,
            C1Token::ConstInt,
            C1Token::ConstFloat,
            C1Token::ConstBoolean,
            C1Token::LeftParenthesis,
        ]@,
    ) {
        assignment(t, pos)
    } else if at_any(t, pos, [C1Token::Semicolon]@) || at_end(t, pos) {
        Ok(pos)
    } else {
        fail(t, pos, "Expected: ID or - or ConstInt or ConstFloat or ConstBoolean or ( or ;"@)
    }
}

/// printf ::= "printf" "(" assignment ")"
pub open spec fn printf(t: Toks, pos: int) -> PRes {
    if at_any(t, pos, [C1Token::KwPrintf]@) {
        match expect(t, pos + 1, C1Token::LeftParenthesis, "Expected: ( in Line:"@) {
            Ok(p1) => match assignment(t, p1) {
                Ok(p2) => expect(t, p2, C1Token::RightParenthesis, "Expected: ) in Line:"@),
                Err(m) => Err(m),
            },
            Err(m) => Err(m),
        }
    } else {
        fail(t, pos, "Expected: KwPrintf in Line:"@)
    }
}

/// type ::= "bool" | "float" | "int" | "void"
pub open spec fn return_type(t: Toks, pos: int) -> PRes {
    if at_any(t, pos, type_keywords()) {
        Ok(pos + 1)
    } else {
        fail(t, pos, "Expected: KwBoolean or KwFloat or KwInt or KwVoid in Line:"@)
    }
}

/// statassignment ::= ID "=" assignment
pub open spec fn stat_assignment(t: Toks, pos: int) -> PRes {
    match expect_all(t, pos, [C1Token::Identifier, C1Token::Assign]@, "Expected: ID = in Line:"@) {
        Ok(p) => assignment(t, p),
        Err(m) => Err(m),
    }
}

/// The part of an assignment statement after its name: "=" assignment.
pub open spec fn stat_assignment2(t: Toks, pos: int) -> PRes {
    match expect(t, pos, C1Token::Assign, "Expected: = in Line:"@) {
        Ok(p) => assignment(t, p),
        Err(m) => Err(m),
    }
}

// ---------------------------------------------------------------------
// Expressions
// ---------------------------------------------------------------------

/// assignment ::= ID "=" assignment | expr
pub open spec fn assignment(t: Toks, pos: int) -> PRes
    decreases t.len() - pos, 5int,
{
    if at_any(t, pos, [C1Token::Identifier]@) {
        assignment2(t, pos + 1)
    } else if at_any(
        t,
        pos,
        [
            C1Token::Minus,
            C1Token::ConstInt,
            C1Token::ConstFloat,
            C1Token::ConstBoolean,
            C1Token::Identifier,
            C1Token::LeftParenthesis,
        ]@,
    ) {
        exproi(t, pos)
    } else {
        fail(
            t,
            pos,
            "Expected: <ID> or - or ConstInt or ConstFloat or ConstBoolean or ( in Line:"@,
        )
    }
}

/// What follows a leading name in an assignment: "=" assignment, or the
/// rest of an expression that starts with that name.
pub open spec fn assignment2(t: Toks, pos: int) -> PRes
    decreases t.len() - pos, 5int,
{
    if at_any(t, pos, [C1Token::Assign]@) {
        assignment(t, pos + 1)
    } else if at_any(
        t,
        pos,
        [
            C1Token::Plus,
            C1Token::Minus,
            C1Token::Or,
            C1Token::Less,
            C1Token::Greater,
            C1Token::LessEqual,
            C1Token::GreaterEqual,
            C1Token::Equal,
            C1Token::NotEqual,
            C1Token::LeftParenthesis,
            C1Token::Asterisk,
            C1Token::Slash,
            C1Token::And,
        ]@,
    ) || at_end(t, pos) {
        exprmi(t, pos)
    } else if at_any(t, pos, [C1Token::RightParenthesis, C1Token::Semicolon]@) || at_end(
        t,
        pos,
    ) {
        Ok(pos)
    } else {
        fail(
            t,
            pos,
            "Expected: = or + or - or * or / or || or && or > or >= or < or <= or == or != or ( or ) or ; in Line:"@,
        )
    }
}

/// expr ::= simpexpr ( relation simpexpr )?
pub open spec fn expr(t: Toks, pos: int) -> PRes {
    match simpexpr(t, pos) {
        Ok(p) => expr2(t, p),
        Err(m) => Err(m),
    }
}

/// The optional comparison that ends an expression.
pub open spec fn expr2(t: Toks, pos: int) -> PRes
    decreases t.len() - pos, 1int,
{
    if at_any(t, pos, relations()) {
        match operator(t, pos) {
            Ok(p) => if beyond(t, pos, p) {
                simpexpr(t, p)
            } else {
                Ok(p)
            },
            Err(m) => Err(m),
        }
    } else if at_any(t, pos, [C1Token::RightParenthesis, C1Token::Semicolon]@) || at_end(
        t,
        pos,
    ) {
        Ok(pos)
    } else {
        fail(t, pos, "Expected: > or >= or < or <= or == or != or ) or ; in Line:"@)
    }
}

/// The rest of an expression whose leading name has been consumed.
pub open spec fn exprmi(t: Toks, pos: int) -> PRes
    decreases t.len() - pos, 4int,
{
    if at_any(t, pos, [C1Token::RightParenthesis, C1Token::Semicolon]@) || at_end(t, pos) {
        Ok(pos)
    } else {
        match simpexprmi(t, pos) {
            Ok(p) => if within(t, pos, p) {
                expr2(t, p)
            } else {
                Ok(p)
            },
            Err(m) => Err(m),
        }
    }
}

/// An expression that does not start with a name.
pub open spec fn exproi(t: Toks, pos: int) -> PRes
    decreases t.len() - pos, 4int,
{
    match simpexproi(t, pos) {
        Ok(p) => if within(t, pos, p) {
            expr2(t, p)
        } else {
            Ok(p)
        },
        Err(m) => Err(m),
    }
}

/// relation ::= ">" | "<" | ">=" | "<=" | "==" | "!="
pub open spec fn operator(t: Toks, pos: int) -> PRes {
    if at_any(t, pos, relations()) {
        Ok(pos + 1)
    } else {
        fail(t, pos, "Expected: > or >= or < or <= or == or != in Line:"@)
    }
}

/// simpexpr ::= ( "-" )? term ( ( "+" | "-" | "||" ) term )*
pub open spec fn simpexpr(t: Toks, pos: int) -> PRes
    decreases t.len() - pos, 3int,
{
    let start = if at_any(t, pos, [C1Token::Minus]@) {
        pos + 1
    } else {
        pos
    };
    match term(t, start) {
        Ok(p) => if within(t, pos, p) {
            simpexpr2(t, p)
        } else {
            Ok(p)
        },
        Err(m) => Err(m),
    }
}

/// The additive tail of a simple expression.
pub open spec fn simpexpr2(t: Toks, pos: int) -> PRes
    decreases t.len() - pos, 1int,
{
    if at_any(t, pos, [C1Token::Plus, C1Token::Minus, C1Token::Or]@) {
        match term(t, pos + 1) {
            Ok(p) => if beyond(t, pos, p) {
                simpexpr2(t, p)
            } else {
                Ok(p)
            },
            Err(m) => Err(m),
        }
    } else if at_any(
        t,
        pos,
        [
            C1Token::Greater,
            C1Token::Less,
            C1Token::GreaterEqual,
            C1Token::LessEqual,
            C1Token::Equal,
            C1Token::NotEqual,
            C1Token::RightParenthesis,
            C1Token::Semicolon,
        ]@,
    ) || at_end(t, pos) {
        Ok(pos)
    } else {
        fail(t, pos, "Expected: + or - or || or > or >= or < or <= or == or != or ) or ; in Line:"@)
    }
}

/// The rest of a simple expression whose leading name has been consumed.
pub open spec fn simpexprmi(t: Toks, pos: int) -> PRes
    decreases t.len() - pos, 3int,
{
    if at_any(
        t,
        pos,
        [
            C1Token::RightParenthesis,
            C1Token::Semicolon,
            C1Token::Greater,
            C1Token::GreaterEqual,
            C1Token::Less,
            C1Token::LessEqual,
            C1Token::Equal,
            C1Token::NotEqual,
        ]@,
    ) || at_end(t, pos) {
        Ok(pos)
    } else {
        match termmi(t, pos) {
            Ok(p) => if within(t, pos, p) {
                simpexpr2(t, p)
            } else {
                Ok(p)
            },
            Err(m) => Err(m),
        }
    }
}

/// A simple expression that does not start with a name.
pub open spec fn simpexproi(t: Toks, pos: int) -> PRes
    decreases t.len() - pos, 3int,
{
    if at_any(t, pos, [C1Token::Minus]@) {
        match term(t, pos + 1) {
            Ok(p) => if within(t, pos, p) {
                simpexpr2(t, p)
            } else {
                Ok(p)
            },
            Err(m) => Err(m),
        }
    } else if at_any(
        t,
        pos,
        [
            C1Token::ConstInt,
            C1Token::ConstFloat,
            C1Token::ConstBoolean,
            C1Token::Identifier,
            C1Token::LeftParenthesis,
        ]@,
    ) {
        match termoi(t, pos) {
            Ok(p) => if within(t, pos, p) {
                simpexpr2(t, p)
            } else {
                Ok(p)
            },
            Err(m) => Err(m),
        }
    } else {
        fail(t, pos, "Expected: ConstInt or ConstFloat or ConstBoolean or Identifier or ( in Line:"@)
    }
}

/// term ::= factor ( ( "*" | "/" | "&&" ) factor )*
pub open spec fn term(t: Toks, pos: int) -> PRes
    decreases t.len() - pos, 2int,
{
    match factor(t, pos) {
        Ok(p) => if within(t, pos, p) {
            term2(t, p)
        } else {
            Ok(p)
        },
        Err(m) => Err(m),
    }
}

/// The tokens that may follow a term.
pub open spec fn term_follow() -> Seq<C1Token> {
    [
        C1Token::Greater,
        C1Token::Less,
        C1Token::GreaterEqual,
        C1Token::LessEqual,
        C1Token::Equal,
        C1Token::NotEqual,
        C1Token::RightParenthesis,
        C1Token::Semicolon,
        C1Token::Plus,
        C1Token::Minus,
        C1Token::Or,
    ]@
}

/// The multiplicative tail of a term.
pub open spec fn term2(t: Toks, pos: int) -> PRes
    decreases t.len() - pos, 1int,
{
    if at_any(t, pos, [C1Token::Asterisk, C1Token::Slash, C1Token::And]@) {
        match factor(t, pos + 1) {
            Ok(p) => if beyond(t, pos, p) {
                term2(t, p)
            } else {
                Ok(p)
            },
            Err(m) => Err(m),
        }
    } else if at_any(t, pos, term_follow()) || at_end(t, pos) {
        Ok(pos)
    } else {
        fail(
            t,
            pos,
            "Expected: * or / or && or > or < or >= or <= or == or != or ) or ; or + or - or || in Line:"@,
        )
    }
}

/// The rest of a term whose leading name has been consumed.
pub open spec fn termmi(t: Toks, pos: int) -> PRes
    decreases t.len() - pos, 2int,
{
    if at_any(t, pos, term_follow()) || at_end(t, pos) {
        Ok(pos)
    } else {
        match factor2(t, pos) {
            Ok(p) => if within(t, pos, p) {
                term2(t, p)
            } else {
                Ok(p)
            },
            Err(m) => Err(m),
        }
    }
}

/// A term that does not start with a name.
pub open spec fn termoi(t: Toks, pos: int) -> PRes
    decreases t.len() - pos, 2int,
{
    match factoroi(t, pos) {
        Ok(p) => if within(t, pos, p) {
            term2(t, p)
        } else {
            Ok(p)
        },
        Err(m) => Err(m),
    }
}

/// factor ::= CONST_INT | CONST_FLOAT | CONST_BOOLEAN | ID ( "(" ")" )? | "(" assignment ")"
pub open spec fn factor(t: Toks, pos: int) -> PRes
    decreases t.len() - pos, 1int,
{
    if at_any(t, pos, [C1Token::ConstInt]@) {
        Ok(pos + 1)
    } else if at_any(t, pos, [C1Token::ConstFloat]@) {
        Ok(pos + 1)
    } else if at_any(t, pos, [C1Token::ConstBoolean]@) {
        Ok(pos + 1)
    } else if at_any(t, pos, [C1Token::Identifier]@) {
        factor2(t, pos + 1)
    } else if at_any(t, pos, [C1Token::LeftParenthesis]@) {
        match assignment(t, pos + 1) {
            Ok(p) => expect(t, p, C1Token::RightParenthesis, "Expected: ) in Line:"@),
            Err(m) => Err(m),
        }
    } else {
        fail(t, pos, "Expected: ConstInt or ConstFloat or ConstBoolean or Identifier or ( in Line:"@)
    }
}

/// What follows a name in a factor: an empty call "(" ")", or nothing.
pub open spec fn factor2(t: Toks, pos: int) -> PRes {
    if at_any(t, pos, [C1Token::LeftParenthesis]@) {
        function_call2(t, pos)
    } else if at_any(
        t,
        pos,
        [
            C1Token::RightParenthesis,
            C1Token::Semicolon,
            C1Token::Greater,
            C1Token::Less,
            C1Token::GreaterEqual,
            C1Token::LessEqual,
            C1Token::Equal,
            C1Token::NotEqual,
            C1Token::Plus,
            C1Token::Minus,
            C1Token::Or,
            C1Token::Asterisk,
            C1Token::Slash,
            C1Token::And,
        ]@,
    ) || at_end(t, pos) {
        Ok(pos)
    } else {
        fail(
            t,
            pos,
            "Expected: ( or ) or ; or > or < or >= or <= or == or != or + or - or || or * or / or && in Line:"@,
        )
    }
}

/// A factor that is not a name.
pub open spec fn factoroi(t: Toks, pos: int) -> PRes
    decreases t.len() - pos, 1int,
{
    if at_any(t, pos, [C1Token::ConstInt]@) {
        Ok(pos + 1)
    } else if at_any(t, pos, [C1Token::ConstFloat]@) {
        Ok(pos + 1)
    } else if at_any(t, pos, [C1Token::ConstBoolean]@) {
        Ok(pos + 1)
    } else if at_any(t, pos, [C1Token::LeftParenthesis]@) {
        match assignment(t, pos + 1) {
            Ok(p) => expect(t, p, C1Token::RightParenthesis, "Expected: ) in Line:"@),
            Err(m) => Err(m),
        }
    } else {
        fail(t, pos, "Expected: ConstInt or ConstFloat or ConstBoolean or ( in Line:"@)
    }
}

} // verus!
