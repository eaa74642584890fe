//! The recursive-descent parser of the C1 language. Each method recognises
//! one nonterminal at the current token and either moves past it or fails
//! with a message that names what was expected and where; its contract is
//! the matching function of `crate::grammar`.
use vstd::prelude::*;
use crate::grammar;
use crate::grammar::{PRes, Toks, decimal, digit_char, line_text, message};
use crate::lexer::{C1Lexer, C1Token, cur, cur_line};
use crate::ParseResult;

verus! {

/// A parser: a lexer whose cursor the grammar moves forward.
pub struct C1Parser(C1Lexer);

/// How a parse step relates the parser before and after it: the tokens stay,
/// the cursor only moves forward, and the result is the one `expected`
/// describes: success exactly where `expected` is `Ok`, with the cursor at
/// the position it names; failure with exactly the message it names and the
/// cursor at the position it names.
pub open spec fn parsed(before: C1Parser, after: C1Parser, res: ParseResult, expected: PRes) -> bool {
    &&& after.wf()
    &&& after.tokens() == before.tokens()
    &&& before.pos() <= after.pos()
    &&& match expected {
        Ok(p) => res is Ok && after.pos() == p,
        Err(e) => res matches Err(m) && m@ == e.0 && after.pos() == e.1,
    }
}

fn digit_text(d: usize) -> (r: &'static str)
    requires
        d < 10,
    ensures
        r@ == seq![digit_char(d as nat)],
{
    if d == 0 {
        proof {
            reveal_strlit("0");
        }
        "0"
    } else if d == 1 {
        proof {
            reveal_strlit("1");
        }
        "1"
    } else if d == 2 {
        proof {
            reveal_strlit("2");
        }
        "2"
    } else if d == 3 {
        proof {
            reveal_strlit("3");
        }
        "3"
    } else if d == 4 {
        proof {
            reveal_strlit("4");
        }
        "4"
    } else if d == 5 {
        proof {
            reveal_strlit("5");
        }
        "5"
    } else if d == 6 {
        proof {
            reveal_strlit("6");
        }
        "6"
    } else if d == 7 {
        proof {
            reveal_strlit("7");
        }
        "7"
    } else if d == 8 {
        proof {
            reveal_strlit("8");
        }
        "8"
    } else {
        proof {
            reveal_strlit("9");
        }
        "9"
    }
}

/// Appends the decimal digits of `n`.
fn append_decimal(out: &mut String, n: usize)
    ensures
        final(out)@ == old(out)@ + decimal(n as nat),
    decreases n,
{
    if n >= 10 {
        append_decimal(out, n / 10);
    }
    out.append(digit_text(n % 10));
    assert(out@ =~= old(out)@ + decimal(n as nat));
}

impl C1Parser {
    /// The token stream being parsed.
    pub closed spec fn tokens(&self) -> Toks {
        self.0.tokens()
    }

    /// The position of the current token.
    pub closed spec fn pos(&self) -> int {
        self.0.pos()
    }

    pub open spec fn wf(&self) -> bool {
        0 <= self.pos() <= self.tokens().len()
    }

    /// Parses a whole text as a program. It succeeds exactly when the tokens
    /// of `text` form a program, and then it has consumed all of them;
    /// otherwise it fails with the message of the rule that failed.
    pub fn parse(text: &str) -> (res: ParseResult)
        ensures
            match grammar::program(crate::lexer::lex(text@), 0) {
                Ok(_) => res is Ok,
                Err(e) => res matches Err(m) && m@ == e.0,
            },
            res is Ok ==> grammar::program(crate::lexer::lex(text@), 0) == Ok::<int, (Seq<char>, int)>(
                crate::lexer::lex(text@).len() as int,
            ),
    {
        let mut parser = Self::initialize_parser(text);
        parser.program()
    }

    /// A parser at the first token of `text`.
    pub fn initialize_parser(text: &str) -> (r: C1Parser)
        ensures
            r.wf(),
            r.tokens() == crate::lexer::lex(text@),
            r.pos() == 0,
    {
        C1Parser(C1Lexer::new(text))
    }

    /// The current token, `None` at the end of the input.
    pub fn current_token(&self) -> (r: Option<C1Token>)
        requires
            self.wf(),
        ensures
            r == cur(self.tokens(), self.pos()),
    {
        self.0.current_token()
    }

    /// The line of the current token, `None` at the end of the input.
    pub fn current_line_number(&self) -> (r: Option<usize>)
        requires
            self.wf(),
        ensures
            r is None <==> cur_line(self.tokens(), self.pos()) is None,
            r matches Some(n) ==> cur_line(self.tokens(), self.pos()) == Some(n as nat),
    {
        self.0.current_line_number()
    }

    /// Moves to the next token; at the end of the input it stays.
    pub fn eat(&mut self)
        requires
            old(self).wf(),
        ensures
            final(self).wf(),
            final(self).tokens() == old(self).tokens(),
            final(self).pos() == if old(self).pos() < old(self).tokens().len() {
                old(self).pos() + 1
            } else {
                old(self).pos()
            },
    {
        self.0.eat()
    }

    /// The line of the current token as text, `Unknown` past the last token.
    pub fn get_line(&self) -> (r: String)
        requires
            self.wf(),
        ensures
            r@ == line_text(cur_line(self.tokens(), self.pos())),
    {
        match self.current_line_number() {
            Some(number) => {
                let mut s = String::new();
                append_decimal(&mut s, number);
                s
            },
            None => {
                proof {
                    reveal_strlit("Unknown");
                }
                String::from_str("Unknown")
            },
        }
    }

    /// `text` followed by the line of the current token.
    fn expected_message(&self, text: &str) -> (r: String)
        requires
            self.wf(),
        ensures
            r@ == message(self.tokens(), self.pos(), text@),
    {
        let mut s = String::from_str(text);
        let line = self.get_line();
        s.append(line.as_str());
        s
    }

    /// Check whether the current token is equal to the given token. If yes, consume it, otherwise
    /// return an error with the given error message
    pub fn check_and_eat_token(&mut self, token: &C1Token, error_message: &str) -> (res: ParseResult)
        requires
            old(self).wf(),
        ensures
            parsed(
                *old(self),
                *final(self),
                res,
                grammar::check_token(old(self).tokens(), old(self).pos(), *token, error_message@),
            ),
    {
        if self.current_matches(token) {
            self.eat();
            Ok(())
        } else {
            Err(String::from_str(error_message))
        }
    }

    /// For each token in the given slice, check whether the token is equal to the current token,
    /// consume the current token, and check the next token in the slice against the next token
    /// provided by the lexer.
    pub fn check_and_eat_tokens(&mut self, token: &[C1Token], error_message: &str) -> (res: ParseResult)
        requires
            old(self).wf(),
        ensures
            parsed(
                *old(self),
                *final(self),
                res,
                grammar::check_tokens(old(self).tokens(), old(self).pos(), token@, error_message@),
            ),
    {
        let ghost t = self.tokens();
        let ghost start = self.pos();
        let mut failed = false;
        let mut i: usize = 0;
        proof {
            assert(token@.skip(0) =~= token@);
        }
        while i < token.len()
            invariant
                self.wf(),
                self.tokens() == t,
                start <= self.pos(),
                i <= token@.len(),
                ({
                    let whole = grammar::eat_matching(t, start, token@);
                    let rest = grammar::eat_matching(t, self.pos(), token@.skip(i as int));
                    whole == (rest.0, !failed && rest.1)
                }),
            decreases token@.len() - i,
        {
            proof {
                assert(token@.skip(i as int).drop_first() =~= token@.skip(i + 1));
                assert(token@.skip(i as int)[0] == token@[i as int]);
            }
            let outcome = self.check_and_eat_token(&token[i], error_message);
            if outcome.is_err() {
                failed = true;
            }
            i = i + 1;
        }
        proof {
            assert(token@.skip(i as int) =~= Seq::<C1Token>::empty());
        }
        if failed {
            Err(String::from_str(error_message))
        } else {
            Ok(())
        }
    }

    /// Check whether the given token matches the current token
    pub fn current_matches(&self, token: &C1Token) -> (r: bool)
        requires
            self.wf(),
        ensures
            r == (cur(self.tokens(), self.pos()) == Some(*token)),
    {
        match &self.current_token() {
            None => false,
            Some(current) => current == token,
        }
    }

    /// Check whether any of the tokens matches the current token.
    pub fn any_match_current(&self, token: &[C1Token]) -> (r: bool)
        requires
            self.wf(),
        ensures
            r == grammar::at_any(self.tokens(), self.pos(), token@),
    {
        let mut i: usize = 0;
        while i < token.len()
            invariant
                self.wf(),
                i <= token@.len(),
                forall|j: int| 0 <= j < i ==> cur(self.tokens(), self.pos()) != Some(token@[j]),
            decreases token@.len() - i,
        {
            if self.current_matches(&token[i]) {
                return true;
            }
            i = i + 1;
        }
        false
    }

    /// program ::= ( functiondefinition )* <EOF>
    pub fn program(&mut self) -> (res: ParseResult)
        requires
            old(self).wf(),
        ensures
            parsed(*old(self), *final(self), res, grammar::program(old(self).tokens(), old(self).pos())),
            res is Ok ==> final(self).pos() == final(self).tokens().len(),
        decreases old(self).tokens().len() - old(self).pos(),
    {
        if self.current_token().is_none() {
            return Ok(());
        } else if self.any_match_current(&[C1Token::KwBoolean, C1Token::KwFloat, C1Token::KwInt, C1Token::KwVoid]) {
            match self.functiondefinition() {
                Ok(()) => {
                    return self.program();
                },
                Err(text) => return Err(text),
            }
        } else {
            return Err(self.expected_message("Expected: KwBoolean or KwFloat or KwInt or KwVoid or EOF in Line:"));
        }
    }

    /// functiondefinition ::= type ID "(" ")" "{" statementlist "}"
    pub fn functiondefinition(&mut self) -> (res: ParseResult)
        requires
            old(self).wf(),
        ensures
            parsed(*old(self), *final(self), res, grammar::functiondefinition(old(self).tokens(), old(self).pos())),
            res is Ok ==> old(self).pos() < final(self).pos(),
    {
        if self.any_match_current(&[C1Token::KwBoolean, C1Token::KwFloat, C1Token::KwInt, C1Token::KwVoid]) {
            match self.return_type() {
                Ok(()) => {
                    let msg = self.expected_message("Expected: ID () { in Line:");
                    match self.check_and_eat_tokens(
                        &[
                            C1Token::Identifier,
                            C1Token::LeftParenthesis,
                            C1Token::RightParenthesis,
                            C1Token::LeftBrace,
                        ],
                        msg.as_str(),
                    ) {
                        Ok(()) => {
                            match self.statement_list() {
                                Ok(()) => {
                                    let msg = self.expected_message("Expected: } in Line:");
                                    return self.check_and_eat_token(&C1Token::RightBrace, msg.as_str());
                                },
                                Err(text) => return Err(text),
                            }
                        },
                        Err(text) => return Err(text),
                    }
                },
                Err(text) => return Err(text),
            }
        } else {
            return Err(self.expected_message("Expected: KwBoolean or KwFloat or KwInt or KwVoid in Line:"));
        }
    }

    /// functioncall ::= ID "(" ")"
    pub fn function_call(&mut self) -> (res: ParseResult)
        requires
            old(self).wf(),
        ensures
            parsed(*old(self), *final(self), res, grammar::function_call(old(self).tokens(), old(self).pos())),
    {
        let msg = self.expected_message("Expected: ID in Line:");
        match self.check_and_eat_token(&C1Token::Identifier, msg.as_str()) {
            Ok(()) => {
                let msg = self.expected_message("Expected: () in Line:");
                return self.check_and_eat_tokens(
                    &[C1Token::LeftParenthesis, C1Token::RightParenthesis],
                    msg.as_str(),
                );
            },
            Err(text) => return Err(text),
        }
    }

    /// The part of a function call after its name: "(" ")".
    pub fn function_call2(&mut self) -> (res: ParseResult)
        requires
            old(self).wf(),
        ensures
            parsed(*old(self), *final(self), res, grammar::function_call2(old(self).tokens(), old(self).pos())),
    {
        let msg = self.expected_message("Expected: () in Line:");
        return self.check_and_eat_tokens(
            &[C1Token::LeftParenthesis, C1Token::RightParenthesis],
            msg.as_str(),
        );
    }

    /// statementlist ::= ( block )*, up to a "}" or the end of the input.
    pub fn statement_list(&mut self) -> (res: ParseResult)
        requires
            old(self).wf(),
        ensures
            parsed(*old(self), *final(self), res, grammar::statement_list(old(self).tokens(), old(self).pos())),
        decreases old(self).tokens().len() - old(self).pos(), 4int,
    {
        if self.any_match_current(
            &[
                C1Token::LeftBrace,
                C1Token::Identifier,
                C1Token::KwIf,
                C1Token::KwReturn,
                C1Token::KwPrintf,
            ],
        ) {
            match self.block() {
                Ok(()) => {
                    return self.statement_list();
                },
                Err(text) => return Err(text),
            }
        } else if self.any_match_current(&[C1Token::RightBrace]) || self.current_token().is_none() {
            return Ok(());
        }
        return Err(self.expected_message("Expected: { or ID or KwIf or KwReturn or KwPrintf or } in Line:"));
    }

    /// block ::= "{" statementlist "}" | statement
    pub fn block(&mut self) -> (res: ParseResult)
        requires
            old(self).wf(),
        ensures
            parsed(*old(self), *final(self), res, grammar::block(old(self).tokens(), old(self).pos())),
            res is Ok ==> old(self).pos() < final(self).pos(),
        decreases old(self).tokens().len() - old(self).pos(), 3int,
    {
        if self.any_match_current(&[C1Token::LeftBrace]) {
            self.eat();
            match self.statement_list() {
                Ok(()) => {
                    let msg = self.expected_message("Expected: } in Line:");
                    return self.check_and_eat_token(&C1Token::RightBrace, msg.as_str());
                },
                Err(text) => return Err(text),
            }
        } else if self.any_match_current(
            &[C1Token::Identifier, C1Token::KwIf, C1Token::KwReturn, C1Token::KwPrintf],
        ) {
            return self.statement();
        } else {
            return Err(self.expected_message("Expected: { or ID or KwIf or KwReturn or KwPrintf in Line:"));
        }
    }

    /// statement ::= ifstatement | returnstatement ";" | printf ";" | ID statement2 ";"
    pub fn statement(&mut self) -> (res: ParseResult)
        requires
            old(self).wf(),
        ensures
            parsed(*old(self), *final(self), res, grammar::statement(old(self).tokens(), old(self).pos())),
            res is Ok ==> old(self).pos() < final(self).pos(),
        decreases old(self).tokens().len() - old(self).pos(), 2int,
    {
        if self.any_match_current(&[C1Token::KwIf]) {
            return self.if_statement();
        } else if self.any_match_current(&[C1Token::KwReturn]) {
            match self.return_statement() {
                Ok(()) => {
                    let msg = self.expected_message("Expected: ; in Line:");
                    return self.check_and_eat_token(&C1Token::Semicolon, msg.as_str());
                },
                Err(text) => return Err(text),
            }
        } else if self.any_match_current(&[C1Token::KwPrintf]) {
            match self.printf() {
                Ok(()) => {
                    let msg = self.expected_message("Expected: ; in Line:");
                    return self.check_and_eat_token(&C1Token::Semicolon, msg.as_str());
                },
                Err(text) => return Err(text),
            }
        } else if self.any_match_current(&[C1Token::Identifier]) {
            self.eat();
            match self.statement2() {
                Ok(()) => {
                    let msg = self.expected_message("Expected: ; in Line:");
                    return self.check_and_eat_token(&C1Token::Semicolon, msg.as_str());
                },
                Err(text) => return Err(text),
            }
        } else {
            return Err(self.expected_message("Expected: KwIf or KwReturn or KwPrintf or ID in Line:"));
        }
    }

    /// The part of a statement after its leading name: a call or an assignment.
    pub fn statement2(&mut self) -> (res: ParseResult)
        requires
            old(self).wf(),
        ensures
            parsed(*old(self), *final(self), res, grammar::statement2(old(self).tokens(), old(self).pos())),
    {
        if self.any_match_current(&[C1Token::LeftParenthesis]) {
            return self.function_call2();
        } else if self.any_match_current(&[C1Token::Assign]) {
            return self.stat_assignment2();
        } else {
            return Err(self.expected_message("Expected: ( or = in Line:"));
        }
    }

    /// ifstatement ::= "if" "(" assignment ")" block
    pub fn if_statement(&mut self) -> (res: ParseResult)
        requires
            old(self).wf(),
        ensures
            parsed(*old(self), *final(self), res, grammar::if_statement(old(self).tokens(), old(self).pos())),
            res is Ok ==> old(self).pos() < final(self).pos(),
        decreases old(self).tokens().len() - old(self).pos(), 1int,
    {
        if self.any_match_current(&[C1Token::KwIf]) {
            self.eat();
            let msg = self.expected_message("Expected: ( in Line:");
            match self.check_and_eat_token(&C1Token::LeftParenthesis, msg.as_str()) {
                Ok(()) => {
                    match self.assignment() {
                        Ok(()) => {
                            let msg = self.expected_message("Expected: ) in Line:");
                            match self.check_and_eat_token(&C1Token::RightParenthesis, msg.as_str()) {
                                Ok(()) => {
                                    return self.block();
                                },
                                Err(text) => return Err(text),
                            }
                        },
                        Err(text) => return Err(text),
                    }
                },
                Err(text) => return Err(text),
            }
        } else {
            return Err(self.expected_message("Expected: KwIf in Line:"));
        }
    }

    /// returnstatement ::= "return" ( assignment )?
    pub fn return_statement(&mut self) -> (res: ParseResult)
        requires
            old(self).wf(),
        ensures
            parsed(*old(self), *final(self), res, grammar::return_statement(old(self).tokens(), old(self).pos())),
    {
        if self.any_match_current(&[C1Token::KwReturn]) {
            self.eat();
            return self.return_statement2();
        } else {
            return Err(self.expected_message("Expected: KwReturn in Line:"));
        }
    }

    /// The optional value of a return statement.
    pub fn return_statement2(&mut self) -> (res: ParseResult)
        requires
            old(self).wf(),
        ensures
            parsed(*old(self), *final(self), res, grammar::return_statement2(old(self).tokens(), old(self).pos())),
    {
        if self.any_match_current(
            &[
                C1Token::Identifier,
                C1Token::Minus,
                C1Token::ConstInt,
                C1Token::ConstFloat,
                C1Token::ConstBoolean,
                C1Token::LeftParenthesis,
            ],
        ) {
            return self.assignment();
        } else if self.any_match_current(&[C1Token::Semicolon]) || self.current_token().is_none() {
            return Ok(());
        } else {
            return Err(self.expected_message("Expected: ID or - or ConstInt or ConstFloat or ConstBoolean or ( or ;"));
        }
    }

    /// printf ::= "printf" "(" assignment ")"
    pub fn printf(&mut self) -> (res: ParseResult)
        requires
            old(self).wf(),
        ensures
            parsed(*old(self), *final(self), res, grammar::printf(old(self).tokens(), old(self).pos())),
    {
        if self.any_match_current(&[C1Token::KwPrintf]) {
            self.eat();
            let msg = self.expected_message("Expected: ( in Line:");
            match self.check_and_eat_token(&C1Token::LeftParenthesis, msg.as_str()) {
                Ok(()) => {
                    match self.assignment() {
                        Ok(()) => {
                            let msg = self.expected_message("Expected: ) in Line:");
                            return self.check_and_eat_token(&C1Token::RightParenthesis, msg.as_str());
                        },
                        Err(text) => return Err(text),
                    }
                },
                Err(text) => return Err(text),
            }
        } else {
            return Err(self.expected_message("Expected: KwPrintf in Line:"));
        }
    }

    /// type ::= "bool" | "float" | "int" | "void"
    pub fn return_type(&mut self) -> (res: ParseResult)
        requires
            old(self).wf(),
        ensures
            parsed(*old(self), *final(self), res, grammar::return_type(old(self).tokens(), old(self).pos())),
    {
        if self.any_match_current(&[C1Token::KwBoolean, C1Token::KwFloat, C1Token::KwInt, C1Token::KwVoid]) {
            self.eat();
            return Ok(());
        } else {
            return Err(self.expected_message("Expected: KwBoolean or KwFloat or KwInt or KwVoid in Line:"));
        }
    }

    /// statassignment ::= ID "=" assignment
    pub fn stat_assignment(&mut self) -> (res: ParseResult)
        requires
            old(self).wf(),
        ensures
            parsed(*old(self), *final(self), res, grammar::stat_assignment(old(self).tokens(), old(self).pos())),
    {
        let msg = self.expected_message("Expected: ID = in Line:");
        match self.check_and_eat_tokens(&[C1Token::Identifier, C1Token::Assign], msg.as_str()) {
            Ok(()) => {
                return self.assignment();
            },
            Err(text) => return Err(text),
        }
    }

    /// The part of an assignment statement after its name: "=" assignment.
    pub fn stat_assignment2(&mut self) -> (res: ParseResult)
        requires
            old(self).wf(),
        ensures
            parsed(*old(self), *final(self), res, grammar::stat_assignment2(old(self).tokens(), old(self).pos())),
    {
        let msg = self.expected_message("Expected: = in Line:");
        match self.check_and_eat_token(&C1Token::Assign, msg.as_str()) {
            Ok(()) => {
                return self.assignment();
            },
            Err(text) => return Err(text),
        }
    }

    /// assignment ::= ID "=" assignment | expr
    pub fn assignment(&mut self) -> (res: ParseResult)
        requires
            old(self).wf(),
        ensures
            parsed(*old(self), *final(self), res, grammar::assignment(old(self).tokens(), old(self).pos())),
        decreases old(self).tokens().len() - old(self).pos(), 5int,
    {
        if self.any_match_current(&[C1Token::Identifier]) {
            self.eat();
            return self.assignment2();
        } else if self.any_match_current(
            &[
                C1Token::Minus,
                C1Token::ConstInt,
                C1Token::ConstFloat,
                C1Token::ConstBoolean,
                C1Token::Identifier,
                C1Token::LeftParenthesis,
            ],
        ) {
            return self.exproi();
        } else {
            return Err(self.expected_message("Expected: <ID> or - or ConstInt or ConstFloat or ConstBoolean or ( in Line:"));
        }
    }

    /// What follows a leading name in an assignment: "=" assignment, or the
    /// rest of an expression that starts with that name.
    pub fn assignment2(&mut self) -> (res: ParseResult)
        requires
            old(self).wf(),
        ensures
            parsed(*old(self), *final(self), res, grammar::assignment2(old(self).tokens(), old(self).pos())),
        decreases old(self).tokens().len() - old(self).pos(), 5int,
    {
        if self.any_match_current(&[C1Token::Assign]) {
            self.eat();
            return self.assignment();
        } else if self.any_match_current(
            &[
                C1Token::Plus,
                C1Token::Minus,
                C1Token::Or,
                C1Token::Less,
                C1Token::Greater,
                C1Token::LessEqual,
                C1Token::GreaterEqual,
                C1Token::Equal,
                C1Token::NotEqual,
                C1Token::LeftParenthesis,
                C1Token::Asterisk,
                C1Token::Slash,
                C1Token::And,
            ],
        ) || self.current_token().is_none() {
            return self.exprmi();
        } else if self.any_match_current(&[C1Token::RightParenthesis, C1Token::Semicolon])
            || self.current_token().is_none() {
            return Ok(());
        } else {
            return Err(self.expected_message("Expected: = or + or - or * or / or || or && or > or >= or < or <= or == or != or ( or ) or ; in Line:"));
        }
    }

    /// expr ::= simpexpr ( relation simpexpr )?
    pub fn expr(&mut self) -> (res: ParseResult)
        requires
            old(self).wf(),
        ensures
            parsed(*old(self), *final(self), res, grammar::expr(old(self).tokens(), old(self).pos())),
    {
        match self.simpexpr() {
            Ok(()) => {
                return self.expr2();
            },
            Err(text) => return Err(text),
        }
    }

    /// The optional comparison that ends an expression.
    pub fn expr2(&mut self) -> (res: ParseResult)
        requires
            old(self).wf(),
        ensures
            parsed(*old(self), *final(self), res, grammar::expr2(old(self).tokens(), old(self).pos())),
        decreases old(self).tokens().len() - old(self).pos(), 1int,
    {
        if self.any_match_current(&[C1Token::Greater, C1Token::Less, C1Token::GreaterEqual, C1Token::LessEqual, C1Token::Equal, C1Token::NotEqual]) {
            match self.operator() {
                Ok(()) => {
                    return self.simpexpr();
                },
                Err(text) => return Err(text),
            }
        } else if self.any_match_current(&[C1Token::RightParenthesis, C1Token::Semicolon])
            || self.current_token().is_none() {
            return Ok(());
        } else {
            return Err(self.expected_message("Expected: > or >= or < or <= or == or != or ) or ; in Line:"));
        }
    }

    /// The rest of an expression whose leading name has been consumed.
    pub fn exprmi(&mut self) -> (res: ParseResult)
        requires
            old(self).wf(),
        ensures
            parsed(*old(self), *final(self), res, grammar::exprmi(old(self).tokens(), old(self).pos())),
        decreases old(self).tokens().len() - old(self).pos(), 4int,
    {
        if self.any_match_current(&[C1Token::RightParenthesis, C1Token::Semicolon])
            || self.current_token().is_none() {
            return Ok(());
        } else {
            match self.simpexprmi() {
                Ok(()) => {
                    return self.expr2();
                },
                Err(text) => return Err(text),
            }
        }
    }

    /// An expression that does not start with a name.
    pub fn exproi(&mut self) -> (res: ParseResult)
        requires
            old(self).wf(),
        ensures
            parsed(*old(self), *final(self), res, grammar::exproi(old(self).tokens(), old(self).pos())),
        decreases old(self).tokens().len() - old(self).pos(), 4int,
    {
        match self.simpexproi() {
            Ok(()) => {
                return self.expr2();
            },
            Err(text) => return Err(text),
        }
    }

    /// relation ::= ">" | "<" | ">=" | "<=" | "==" | "!="
    pub fn operator(&mut self) -> (res: ParseResult)
        requires
            old(self).wf(),
        ensures
            parsed(*old(self), *final(self), res, grammar::operator(old(self).tokens(), old(self).pos())),
    {
        if self.any_match_current(&[C1Token::Greater, C1Token::Less, C1Token::GreaterEqual, C1Token::LessEqual, C1Token::Equal, C1Token::NotEqual]) {
            self.eat();
            return Ok(());
        } else {
            return Err(self.expected_message("Expected: > or >= or < or <= or == or != in Line:"));
        }
    }

    /// simpexpr ::= ( "-" )? term ( ( "+" | "-" | "||" ) term )*
    pub fn simpexpr(&mut self) -> (res: ParseResult)
        requires
            old(self).wf(),
        ensures
            parsed(*old(self), *final(self), res, grammar::simpexpr(old(self).tokens(), old(self).pos())),
        decreases old(self).tokens().len() - old(self).pos(), 3int,
    {
        if self.any_match_current(&[C1Token::Minus]) {
            self.eat()
        }
        match self.term() {
            Ok(()) => {
                return self.simpexpr2();
            },
            Err(text) => return Err(text),
        }
    }

    /// The additive tail of a simple expression.
    pub fn simpexpr2(&mut self) -> (res: ParseResult)
        requires
            old(self).wf(),
        ensures
            parsed(*old(self), *final(self), res, grammar::simpexpr2(old(self).tokens(), old(self).pos())),
        decreases old(self).tokens().len() - old(self).pos(), 1int,
    {
        if self.any_match_current(&[C1Token::Plus, C1Token::Minus, C1Token::Or]) {
            self.eat();
            match self.term() {
                Ok(()) => {
                    return self.simpexpr2();
                },
                Err(text) => return Err(text),
            }
        } else if self.any_match_current(
            &[
                C1Token::Greater,
                C1Token::Less,
                C1Token::GreaterEqual,
                C1Token::LessEqual,
                C1Token::Equal,
                C1Token::NotEqual,
                C1Token::RightParenthesis,
                C1Token::Semicolon,
            ],
        ) || self.current_token().is_none() {
            return Ok(());
        } else {
            return Err(self.expected_message("Expected: + or - or || or > or >= or < or <= or == or != or ) or ; in Line:"));
        }
    }

    /// The rest of a simple expression whose leading name has been consumed.
    pub fn simpexprmi(&mut self) -> (res: ParseResult)
        requires
            old(self).wf(),
        ensures
            parsed(*old(self), *final(self), res, grammar::simpexprmi(old(self).tokens(), old(self).pos())),
        decreases old(self).tokens().len() - old(self).pos(), 3int,
    {
        if self.any_match_current(
            &[
                C1Token::RightParenthesis,
                C1Token::Semicolon,
                C1Token::Greater,
                C1Token::GreaterEqual,
                C1Token::Less,
                C1Token::LessEqual,
                C1Token::Equal,
                C1Token::NotEqual,
            ],
        ) || self.current_token().is_none() {
            return Ok(());
        } else {
            match self.termmi() {
                Ok(()) => {
                    return self.simpexpr2();
                },
                Err(text) => return Err(text),
            }
        }
    }

    /// A simple expression that does not start with a name.
    pub fn simpexproi(&mut self) -> (res: ParseResult)
        requires
            old(self).wf(),
        ensures
            parsed(*old(self), *final(self), res, grammar::simpexproi(old(self).tokens(), old(self).pos())),
        decreases old(self).tokens().len() - old(self).pos(), 3int,
    {
        if self.any_match_current(&[C1Token::Minus]) {
            self.eat();
            match self.term() {
                Ok(()) => {
                    return self.simpexpr2();
                },
                Err(text) => return Err(text),
            }
        } else if self.any_match_current(
            &[
                C1Token::ConstInt,
                C1Token::ConstFloat,
                C1Token::ConstBoolean,
                C1Token::Identifier,
                C1Token::LeftParenthesis,
            ],
        ) {
            match self.termoi() {
                Ok(()) => {
                    return self.simpexpr2();
                },
                Err(text) => return Err(text),
            }
        } else {
            return Err(self.expected_message("Expected: ConstInt or ConstFloat or ConstBoolean or Identifier or ( in Line:"));
        }
    }

    /// term ::= factor ( ( "*" | "/" | "&&" ) factor )*
    pub fn term(&mut self) -> (res: ParseResult)
        requires
            old(self).wf(),
        ensures
            parsed(*old(self), *final(self), res, grammar::term(old(self).tokens(), old(self).pos())),
        decreases old(self).tokens().len() - old(self).pos(), 2int,
    {
        match self.factor() {
            Ok(()) => {
                return self.term2();
            },
            Err(text) => return Err(text),
        }
    }

    /// The multiplicative tail of a term.
    pub fn term2(&mut self) -> (res: ParseResult)
        requires
            old(self).wf(),
        ensures
            parsed(*old(self), *final(self), res, grammar::term2(old(self).tokens(), old(self).pos())),
        decreases old(self).tokens().len() - old(self).pos(), 1int,
    {
        if self.any_match_current(&[C1Token::Asterisk, C1Token::Slash, C1Token::And]) {
            self.eat();
            match self.factor() {
                Ok(()) => {
                    return self.term2();
                },
                Err(text) => return Err(text),
            }
        } else if self.any_match_current(
            &[
                C1Token::Greater,
                C1Token::Less,
                C1Token::GreaterEqual,
                C1Token::LessEqual,
                C1Token::Equal,
                C1Token::NotEqual,
                C1Token::RightParenthesis,
                C1Token::Semicolon,
                C1Token::Plus,
                C1Token::Minus,
                C1Token::Or,
            ],
        ) || self.current_token().is_none() {
            return Ok(());
        } else {
            return Err(self.expected_message("Expected: * or / or && or > or < or >= or <= or == or != or ) or ; or + or - or || in Line:"));
        }
    }

    /// The rest of a term whose leading name has been consumed.
    pub fn termmi(&mut self) -> (res: ParseResult)
        requires
            old(self).wf(),
        ensures
            parsed(*old(self), *final(self), res, grammar::termmi(old(self).tokens(), old(self).pos())),
        decreases old(self).tokens().len() - old(self).pos(), 2int,
    {
        if self.any_match_current(
            &[
                C1Token::Greater,
                C1Token::Less,
                C1Token::GreaterEqual,
                C1Token::LessEqual,
                C1Token::Equal,
                C1Token::NotEqual,
                C1Token::RightParenthesis,
                C1Token::Semicolon,
                C1Token::Plus,
                C1Token::Minus,
                C1Token::Or,
            ],
        ) || self.current_token().is_none() {
            return Ok(());
        } else {
            match self.factor2() {
                Ok(()) => {
                    return self.term2();
                },
                Err(text) => return Err(text),
            }
        }
    }

    /// A term that does not start with a name.
    pub fn termoi(&mut self) -> (res: ParseResult)
        requires
            old(self).wf(),
        ensures
            parsed(*old(self), *final(self), res, grammar::termoi(old(self).tokens(), old(self).pos())),
        decreases old(self).tokens().len() - old(self).pos(), 2int,
    {
        match self.factoroi() {
            Ok(()) => {
                return self.term2();
            },
            Err(text) => return Err(text),
        }
    }

    /// factor ::= CONST_INT | CONST_FLOAT | CONST_BOOLEAN | ID ( "(" ")" )? | "(" assignment ")"
    pub fn factor(&mut self) -> (res: ParseResult)
        requires
            old(self).wf(),
        ensures
            parsed(*old(self), *final(self), res, grammar::factor(old(self).tokens(), old(self).pos())),
        decreases old(self).tokens().len() - old(self).pos(), 1int,
    {
        if self.any_match_current(&[C1Token::ConstInt]) {
            self.eat();
            return Ok(());
        } else if self.any_match_current(&[C1Token::ConstFloat]) {
            self.eat();
            return Ok(());
        } else if self.any_match_current(&[C1Token::ConstBoolean]) {
            self.eat();
            return Ok(());
        } else if self.any_match_current(&[C1Token::Identifier]) {
            self.eat();
            return self.factor2();
        } else if self.any_match_current(&[C1Token::LeftParenthesis]) {
            self.eat();
            match self.assignment() {
                Ok(()) => {
                    let msg = self.expected_message("Expected: ) in Line:");
                    return self.check_and_eat_token(&C1Token::RightParenthesis, msg.as_str());
                },
                Err(text) => return Err(text),
            }
        } else {
            return Err(self.expected_message("Expected: ConstInt or ConstFloat or ConstBoolean or Identifier or ( in Line:"));
        }
    }

    /// What follows a name in a factor: an empty call "(" ")", or nothing.
    pub fn factor2(&mut self) -> (res: ParseResult)
        requires
            old(self).wf(),
        ensures
            parsed(*old(self), *final(self), res, grammar::factor2(old(self).tokens(), old(self).pos())),
    {
        if self.any_match_current(&[C1Token::LeftParenthesis]) {
            return self.function_call2();
        } else if self.any_match_current(
            &[
                C1Token::RightParenthesis,
                C1Token::Semicolon,
                C1Token::Greater,
                C1Token::Less,
                C1Token::GreaterEqual,
                C1Token::LessEqual,
                C1Token::Equal,
                C1Token::NotEqual,
                C1Token::Plus,
                C1Token::Minus,
                C1Token::Or,
                C1Token::Asterisk,
                C1Token::Slash,
                C1Token::And,
            ],
        ) || self.current_token().is_none() {
            return Ok(());
        } else {
            return Err(self.expected_message("Expected: ( or ) or ; or > or < or >= or <= or == or != or + or - or || or * or / or && in Line:"));
        }
    }

    /// A factor that is not a name.
    pub fn factoroi(&mut self) -> (res: ParseResult)
        requires
            old(self).wf(),
        ensures
            parsed(*old(self), *final(self), res, grammar::factoroi(old(self).tokens(), old(self).pos())),
        decreases old(self).tokens().len() - old(self).pos(), 1int,
    {
        if self.any_match_current(&[C1Token::ConstInt]) {
            self.eat();
            return Ok(());
        } else if self.any_match_current(&[C1Token::ConstFloat]) {
            self.eat();
            return Ok(());
        } else if self.any_match_current(&[C1Token::ConstBoolean]) {
            self.eat();
            return Ok(());
        } else if self.any_match_current(&[C1Token::LeftParenthesis]) {
            self.eat();
            match self.assignment() {
                Ok(()) => {
                    let msg = self.expected_message("Expected: ) in Line:");
                    return self.check_and_eat_token(&C1Token::RightParenthesis, msg.as_str());
                },
                Err(text) => return Err(text),
            }
        } else {
            return Err(self.expected_message("Expected: ConstInt or ConstFloat or ConstBoolean or ( in Line:"));
        }
    }
}

} // verus!
