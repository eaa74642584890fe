//! The lexer of the C1 language: it turns a text into a sequence of tokens,
//! each tagged with the line on which it starts, and offers a cursor over
//! that sequence.
use vstd::prelude::*;

verus! {

/// The tokens of the C1 language.
#[derive(Clone, Copy, Debug, PartialEq, Eq, Hash, Structural)]
pub enum C1Token {
    KwBoolean,
    KwDo,
    KwElse,
    KwFloat,
    KwFor,
    KwIf,
    KwInt,
    KwPrintf,
    KwReturn,
    KwVoid,
    KwWhile,
    Plus,
    Minus,
    Asterisk,
    Slash,
    Assign,
    Equal,
    NotEqual,
    Less,
    Greater,
    LessEqual,
    GreaterEqual,
    And,
    Or,
    Comma,
    Semicolon,
    LeftParenthesis,
    RightParenthesis,
    LeftBrace,
    RightBrace,
    ConstInt,
    ConstFloat,
    ConstBoolean,
    ConstString,
    Identifier,
    Error,
}

/// A token and the (1-based) line on which it starts.
#[derive(Clone, Copy, Debug, PartialEq, Eq, Structural)]
pub struct TokenData {
    pub token: C1Token,
    pub line: usize,
}

impl View for TokenData {
    type V = (C1Token, nat);

    open spec fn view(&self) -> (C1Token, nat) {
        (self.token, self.line as nat)
    }
}

/// A token stream as the grammar sees it: kinds with their lines.
pub open spec fn views(ts: Seq<TokenData>) -> Seq<(C1Token, nat)> {
    ts.map_values(|d: TokenData| d@)
}

// ---------------------------------------------------------------------
// Characters
// ---------------------------------------------------------------------

pub open spec fn is_digit(c: char) -> bool {
    '0' <= c && c <= '9'
}

pub open spec fn is_letter(c: char) -> bool {
    ('a' <= c && c <= 'z') || ('A' <= c && c <= 'Z')
}

/// A character that may start an identifier or a keyword.
pub open spec fn is_word_start(c: char) -> bool {
    is_letter(c) || c == '_'
}

/// A character that may continue an identifier or a keyword.
pub open spec fn is_word_char(c: char) -> bool {
    is_word_start(c) || is_digit(c)
}

/// Characters that separate tokens and produce none.
pub open spec fn is_blank(c: char) -> bool {
    c == ' ' || c == '\t' || c == '\n' || c == '\r' || c == '\x0c'
}

/// The classes of characters over which the lexer scans runs.
#[derive(Clone, Copy, Debug, PartialEq, Eq, Structural)]
pub enum CharClass {
    Digit,
    Word,
    LineText,
    StringText,
}

pub open spec fn in_class(class: CharClass, c: char) -> bool {
    match class {
        CharClass::Digit => is_digit(c),
        CharClass::Word => is_word_char(c),
        CharClass::LineText => c != '\n',
        CharClass::StringText => c != '"' && c != '\n',
    }
}

/// The first index at or after `i` whose character is not in `class`
/// (or the end of the text).
pub open spec fn run_end(s: Seq<char>, i: int, class: CharClass) -> int
    decreases s.len() - i,
{
    if 0 <= i < s.len() && in_class(class, s[i]) {
        run_end(s, i + 1, class)
    } else {
        i
    }
}

/// The index just after the first `*/` that starts at or after `j`.
pub open spec fn comment_close(s: Seq<char>, j: int) -> Option<int>
    decreases s.len() - j,
{
    if 0 <= j && j + 1 < s.len() {
        if s[j] == '*' && s[j + 1] == '/' {
            Some(j + 2)
        } else {
            comment_close(s, j + 1)
        }
    } else {
        None
    }
}

/// The number of line breaks in `s`.
pub open spec fn newlines(s: Seq<char>) -> nat
    decreases s.len(),
{
    if s.len() == 0 {
        0
    } else {
        newlines(s.drop_last()) + if s.last() == '\n' {
            1nat
        } else {
            0nat
        }
    }
}

/// The line of the character at index `i`: one more than the line breaks before it.
pub open spec fn line_at(s: Seq<char>, i: int) -> nat {
    1 + newlines(s.take(i))
}

// ---------------------------------------------------------------------
// Scanning one token
// ---------------------------------------------------------------------

/// Where the blank or comment that starts at `i` ends; `i` itself when
/// none starts there. A `/*` without a closing `*/` is no comment.
pub open spec fn skip_end(s: Seq<char>, i: int) -> int {
    if is_blank(s[i]) {
        i + 1
    } else if s[i] == '/' && i + 1 < s.len() && s[i + 1] == '/' {
        run_end(s, i + 2, CharClass::LineText)
    } else if s[i] == '/' && i + 1 < s.len() && s[i + 1] == '*' {
        match comment_close(s, i + 2) {
            Some(e) => e,
            None => i,
        }
    } else {
        i
    }
}

/// The end of an exponent `[eE][+-]?[0-9]+` that starts at `j`; `j` when none does.
pub open spec fn exponent_end(s: Seq<char>, j: int) -> int {
    if 0 <= j < s.len() && (s[j] == 'e' || s[j] == 'E') {
        let k = if j + 1 < s.len() && (s[j + 1] == '+' || s[j + 1] == '-') {
            j + 2
        } else {
            j + 1
        };
        if k < s.len() && is_digit(s[k]) {
            run_end(s, k, CharClass::Digit)
        } else {
            j
        }
    } else {
        j
    }
}

/// A number at `i` (which holds a digit or a `.`): the longest integer or
/// floating-point constant there, or a one-character error.
pub open spec fn number_token(s: Seq<char>, i: int) -> (C1Token, int) {
    let d = run_end(s, i, CharClass::Digit);
    if d + 1 < s.len() && s[d] == '.' && is_digit(s[d + 1]) {
        (C1Token::ConstFloat, exponent_end(s, run_end(s, d + 1, CharClass::Digit)))
    } else if d > i && exponent_end(s, d) > d {
        (C1Token::ConstFloat, exponent_end(s, d))
    } else if d > i {
        (C1Token::ConstInt, d)
    } else {
        (C1Token::Error, i + 1)
    }
}

/// The token of a whole word: a keyword, a boolean constant or an identifier.
pub open spec fn word_token(w: Seq<char>) -> C1Token {
    if w == "bool"@ {
        C1Token::KwBoolean
    } else if w == "do"@ {
        C1Token::KwDo
    } else if w == "else"@ {
        C1Token::KwElse
    } else if w == "float"@ {
        C1Token::KwFloat
    } else if w == "for"@ {
        C1Token::KwFor
    } else if w == "if"@ {
        C1Token::KwIf
    } else if w == "int"@ {
        C1Token::KwInt
    } else if w == "printf"@ {
        C1Token::KwPrintf
    } else if w == "return"@ {
        C1Token::KwReturn
    } else if w == "void"@ {
        C1Token::KwVoid
    } else if w == "while"@ {
        C1Token::KwWhile
    } else if w == "true"@ || w == "false"@ {
        C1Token::ConstBoolean
    } else {
        C1Token::Identifier
    }
}

/// A string constant at `i` (which holds `"`): up to the next `"` on the same
/// line, or a one-character error when there is none.
pub open spec fn string_token(s: Seq<char>, i: int) -> (C1Token, int) {
    let q = run_end(s, i + 1, CharClass::StringText);
    if q < s.len() && s[q] == '"' {
        (C1Token::ConstString, q + 1)
    } else {
        (C1Token::Error, i + 1)
    }
}

/// The token of a character that stands alone.
pub open spec fn single_char_token(c: char) -> C1Token {
    if c == '+' {
        C1Token::Plus
    } else if c == '-' {
        C1Token::Minus
    } else if c == '*' {
        C1Token::Asterisk
    } else if c == '/' {
        C1Token::Slash
    } else if c == ',' {
        C1Token::Comma
    } else if c == ';' {
        C1Token::Semicolon
    } else if c == '(' {
        C1Token::LeftParenthesis
    } else if c == ')' {
        C1Token::RightParenthesis
    } else if c == '{' {
        C1Token::LeftBrace
    } else if c == '}' {
        C1Token::RightBrace
    } else {
        C1Token::Error
    }
}

/// An operator or punctuation at `i`, the two-character ones first.
pub open spec fn operator_token(s: Seq<char>, i: int) -> (C1Token, int) {
    let c = s[i];
    let second = |d: char| i + 1 < s.len() && s[i + 1] == d;
    if c == '=' {
        if second('=') {
            (C1Token::Equal, i + 2)
        } else {
            (C1Token::Assign, i + 1)
        }
    } else if c == '!' {
        if second('=') {
            (C1Token::NotEqual, i + 2)
        } else {
            (C1Token::Error, i + 1)
        }
    } else if c == '<' {
        if second('=') {
            (C1Token::LessEqual, i + 2)
        } else {
            (C1Token::Less, i + 1)
        }
    } else if c == '>' {
        if second('=') {
            (C1Token::GreaterEqual, i + 2)
        } else {
            (C1Token::Greater, i + 1)
        }
    } else if c == '&' {
        if second('&') {
            (C1Token::And, i + 2)
        } else {
            (C1Token::Error, i + 1)
        }
    } else if c == '|' {
        if second('|') {
            (C1Token::Or, i + 2)
        } else {
            (C1Token::Error, i + 1)
        }
    } else {
        (single_char_token(c), i + 1)
    }
}

/// The longest token that starts at `i`, and where it ends.
pub open spec fn token_at(s: Seq<char>, i: int) -> (C1Token, int) {
    let c = s[i];
    if is_digit(c) || c == '.' {
        number_token(s, i)
    } else if is_word_start(c) {
        let e = run_end(s, i, CharClass::Word);
        (word_token(s.subrange(i, e)), e)
    } else if c == '"' {
        string_token(s, i)
    } else {
        operator_token(s, i)
    }
}

/// The tokens of `s` from index `i` on. The scanners always end past `i` and
/// within the text, so the two empty fall-backs are never reached; they only
/// make the recursion visibly well-founded.
pub open spec fn lex_from(s: Seq<char>, i: int) -> Seq<(C1Token, nat)>
    decreases s.len() - i,
{
    if !(0 <= i < s.len()) {
        Seq::empty()
    } else {
        let k = skip_end(s, i);
        if k != i {
            if i < k <= s.len() {
                lex_from(s, k)
            } else {
                Seq::empty()
            }
        } else {
            let r = token_at(s, i);
            if i < r.1 <= s.len() {
                seq![(r.0, line_at(s, i))] + lex_from(s, r.1)
            } else {
                Seq::empty()
            }
        }
    }
}

/// The tokens of a whole text.
pub open spec fn lex(s: Seq<char>) -> Seq<(C1Token, nat)> {
    lex_from(s, 0)
}

// ---------------------------------------------------------------------
// Token streams
// ---------------------------------------------------------------------

/// The token at position `pos`, if there is one.
pub open spec fn cur(t: Seq<(C1Token, nat)>, pos: int) -> Option<C1Token> {
    if 0 <= pos < t.len() {
        Some(t[pos].0)
    } else {
        None
    }
}

/// The line of the token at position `pos`, if there is one.
pub open spec fn cur_line(t: Seq<(C1Token, nat)>, pos: int) -> Option<nat> {
    if 0 <= pos < t.len() {
        Some(t[pos].1)
    } else {
        None
    }
}

// ---------------------------------------------------------------------
// The scanner
// ---------------------------------------------------------------------

/// Each line break in `s[..j+1]` is one in `s[..j]`, or `s[j]` itself.
pub proof fn lemma_newlines_step(s: Seq<char>, j: int)
    requires
        0 <= j < s.len(),
    ensures
        newlines(s.take(j + 1)) == newlines(s.take(j)) + if s[j] == '\n' {
            1nat
        } else {
            0nat
        },
        newlines(s.take(j)) <= j,
    decreases j,
{
    assert(s.take(j + 1).drop_last() =~= s.take(j));
    if j > 0 {
        lemma_newlines_step(s, j - 1);
    } else {
        assert(s.take(0) =~= Seq::<char>::empty());
    }
}

fn char_in_class(class: CharClass, c: char) -> (r: bool)
    ensures
        r == in_class(class, c),
{
    match class {
        CharClass::Digit => '0' <= c && c <= '9',
        CharClass::Word => ('a' <= c && c <= 'z') || ('A' <= c && c <= 'Z') || c == '_' || ('0'
            <= c && c <= '9'),
        CharClass::LineText => c != '\n',
        CharClass::StringText => c != '"' && c != '\n',
    }
}

fn scan_run(s: &Vec<char>, i: usize, class: CharClass) -> (e: usize)
    requires
        i <= s@.len(),
    ensures
        e == run_end(s@, i as int, class),
        i <= e <= s@.len(),
        i < s@.len() && in_class(class, s@[i as int]) ==> i < e,
{
    let mut j = i;
    while j < s.len() && char_in_class(class, s[j])
        invariant
            i <= j <= s@.len(),
            run_end(s@, j as int, class) == run_end(s@, i as int, class),
        decreases s@.len() - j,
    {
        j = j + 1;
    }
    j
}

fn find_comment_close(s: &Vec<char>, j: usize) -> (r: Option<usize>)
    requires
        j <= s@.len(),
    ensures
        match r {
            Some(e) => comment_close(s@, j as int) == Some(e as int) && j + 2 <= e <= s@.len(),
            None => comment_close(s@, j as int) is None,
        },
{
    let mut k = j;
    while k < s.len() && k + 1 < s.len()
        invariant
            j <= k <= s@.len(),
            comment_close(s@, k as int) == comment_close(s@, j as int),
        decreases s@.len() - k,
    {
        if s[k] == '*' && s[k + 1] == '/' {
            return Some(k + 2);
        }
        k = k + 1;
    }
    None
}

fn find_skip_end(s: &Vec<char>, i: usize) -> (r: usize)
    requires
        i < s@.len(),
    ensures
        r == skip_end(s@, i as int),
        i <= r <= s@.len(),
{
    let n = s.len();
    let c = s[i];
    if c == ' ' || c == '\t' || c == '\n' || c == '\r' || c == '\x0c' {
        i + 1
    } else if c == '/' && i + 1 < s.len() && s[i + 1] == '/' {
        scan_run(s, i + 2, CharClass::LineText)
    } else if c == '/' && i + 1 < s.len() && s[i + 1] == '*' {
        match find_comment_close(s, i + 2) {
            Some(e) => e,
            None => i,
        }
    } else {
        i
    }
}

fn find_exponent_end(s: &Vec<char>, j: usize) -> (e: usize)
    requires
        j <= s@.len(),
    ensures
        e == exponent_end(s@, j as int),
        j <= e <= s@.len(),
{
    if j < s.len() && (s[j] == 'e' || s[j] == 'E') {
        let k = if j + 1 < s.len() && (s[j + 1] == '+' || s[j + 1] == '-') {
            j + 2
        } else {
            j + 1
        };
        if k < s.len() && char_in_class(CharClass::Digit, s[k]) {
            scan_run(s, k, CharClass::Digit)
        } else {
            j
        }
    } else {
        j
    }
}

fn scan_number(s: &Vec<char>, i: usize) -> (r: (C1Token, usize))
    requires
        i < s@.len(),
    ensures
        (r.0, r.1 as int) == number_token(s@, i as int),
        i < r.1 <= s@.len(),
{
    let d = scan_run(s, i, CharClass::Digit);
    if d < s.len() && d + 1 < s.len() && s[d] == '.' && char_in_class(CharClass::Digit, s[d + 1]) {
        let f = scan_run(s, d + 1, CharClass::Digit);
        (C1Token::ConstFloat, find_exponent_end(s, f))
    } else {
        let x = find_exponent_end(s, d);
        if d > i && x > d {
            (C1Token::ConstFloat, x)
        } else if d > i {
            (C1Token::ConstInt, d)
        } else {
            (C1Token::Error, i + 1)
        }
    }
}

/// Whether `s[i..e]` spells `word`.
fn spells(s: &Vec<char>, i: usize, e: usize, word: &str) -> (r: bool)
    requires
        i <= e <= s@.len(),
    ensures
        r == (s@.subrange(i as int, e as int) == word@),
{
    let n = word.unicode_len();
    if e - i != n {
        return false;
    }
    let mut k: usize = 0;
    while k < n
        invariant
            k <= n,
            n == e - i,
            n == word@.len(),
            i <= e <= s@.len(),
            forall|m: int| 0 <= m < k ==> s@[i + m] == word@[m],
        decreases n - k,
    {
        if s[i + k] != word.get_char(k) {
            assert(s@.subrange(i as int, e as int)[k as int] != word@[k as int]);
            return false;
        }
        k = k + 1;
    }
    assert(s@.subrange(i as int, e as int) =~= word@);
    true
}

fn classify_word(s: &Vec<char>, i: usize, e: usize) -> (t: C1Token)
    requires
        i <= e <= s@.len(),
    ensures
        t == word_token(s@.subrange(i as int, e as int)),
{
    if spells(s, i, e, "bool") {
        C1Token::KwBoolean
    } else if spells(s, i, e, "do") {
        C1Token::KwDo
    } else if spells(s, i, e, "else") {
        C1Token::KwElse
    } else if spells(s, i, e, "float") {
        C1Token::KwFloat
    } else if spells(s, i, e, "for") {
        C1Token::KwFor
    } else if spells(s, i, e, "if") {
        C1Token::KwIf
    } else if spells(s, i, e, "int") {
        C1Token::KwInt
    } else if spells(s, i, e, "printf") {
        C1Token::KwPrintf
    } else if spells(s, i, e, "return") {
        C1Token::KwReturn
    } else if spells(s, i, e, "void") {
        C1Token::KwVoid
    } else if spells(s, i, e, "while") {
        C1Token::KwWhile
    } else if spells(s, i, e, "true") || spells(s, i, e, "false") {
        C1Token::ConstBoolean
    } else {
        C1Token::Identifier
    }
}

fn scan_string(s: &Vec<char>, i: usize) -> (r: (C1Token, usize))
    requires
        i < s@.len(),
    ensures
        (r.0, r.1 as int) == string_token(s@, i as int),
        i < r.1 <= s@.len(),
{
    let n = s.len();
    let q = scan_run(s, i + 1, CharClass::StringText);
    if q < s.len() && s[q] == '"' {
        (C1Token::ConstString, q + 1)
    } else {
        (C1Token::Error, i + 1)
    }
}

fn classify_single(c: char) -> (t: C1Token)
    ensures
        t == single_char_token(c),
{
    if c == '+' {
        C1Token::Plus
    } else if c == '-' {
        C1Token::Minus
    } else if c == '*' {
        C1Token::Asterisk
    } else if c == '/' {
        C1Token::Slash
    } else if c == ',' {
        C1Token::Comma
    } else if c == ';' {
        C1Token::Semicolon
    } else if c == '(' {
        C1Token::LeftParenthesis
    } else if c == ')' {
        C1Token::RightParenthesis
    } else if c == '{' {
        C1Token::LeftBrace
    } else if c == '}' {
        C1Token::RightBrace
    } else {
        C1Token::Error
    }
}

fn scan_operator(s: &Vec<char>, i: usize) -> (r: (C1Token, usize))
    requires
        i < s@.len(),
    ensures
        (r.0, r.1 as int) == operator_token(s@, i as int),
        i < r.1 <= s@.len(),
{
    let n = s.len();
    let c = s[i];
    let next: Option<char> = if i + 1 < s.len() {
        Some(s[i + 1])
    } else {
        None
    };
    if c == '=' {
        if next == Some('=') {
            (C1Token::Equal, i + 2)
        } else {
            (C1Token::Assign, i + 1)
        }
    } else if c == '!' {
        if next == Some('=') {
            (C1Token::NotEqual, i + 2)
        } else {
            (C1Token::Error, i + 1)
        }
    } else if c == '<' {
        if next == Some('=') {
            (C1Token::LessEqual, i + 2)
        } else {
            (C1Token::Less, i + 1)
        }
    } else if c == '>' {
        if next == Some('=') {
            (C1Token::GreaterEqual, i + 2)
        } else {
            (C1Token::Greater, i + 1)
        }
    } else if c == '&' {
        if next == Some('&') {
            (C1Token::And, i + 2)
        } else {
            (C1Token::Error, i + 1)
        }
    } else if c == '|' {
        if next == Some('|') {
            (C1Token::Or, i + 2)
        } else {
            (C1Token::Error, i + 1)
        }
    } else {
        (classify_single(c), i + 1)
    }
}

fn scan_token(s: &Vec<char>, i: usize) -> (r: (C1Token, usize))
    requires
        i < s@.len(),
    ensures
        (r.0, r.1 as int) == token_at(s@, i as int),
        i < r.1 <= s@.len(),
{
    let c = s[i];
    if char_in_class(CharClass::Digit, c) || c == '.' {
        scan_number(s, i)
    } else if ('a' <= c && c <= 'z') || ('A' <= c && c <= 'Z') || c == '_' {
        let e = scan_run(s, i, CharClass::Word);
        (classify_word(s, i, e), e)
    } else if c == '"' {
        scan_string(s, i)
    } else {
        scan_operator(s, i)
    }
}

/// Moves from `i` to `k`, counting the line breaks passed over.
fn count_newlines(s: &Vec<char>, i: usize, k: usize, before: usize) -> (r: usize)
    requires
        i <= k <= s@.len(),
        before == newlines(s@.take(i as int)),
    ensures
        r == newlines(s@.take(k as int)),
        r <= k,
{
    let mut j = i;
    let mut count = before;
    proof {
        if i < s@.len() {
            lemma_newlines_step(s@, i as int);
        } else {
            assert(s@.take(i as int) =~= s@);
            if i > 0 {
                lemma_newlines_step(s@, i - 1);
            }
        }
    }
    while j < k
        invariant
            i <= j <= k <= s@.len(),
            count == newlines(s@.take(j as int)),
            count <= j,
        decreases k - j,
    {
        proof {
            lemma_newlines_step(s@, j as int);
        }
        if s[j] == '\n' {
            count = count + 1;
        }
        j = j + 1;
    }
    count
}

/// The characters of a text.
pub fn chars_of(text: &str) -> (r: Vec<char>)
    ensures
        r@ == text@,
{
    broadcast use vstd::string::group_string_axioms;

    let mut out: Vec<char> = Vec::new();
    for c in it: text.chars()
        invariant
            it.seq() == text@,
            out@ == it.seq().take(it.index()),
    {
        out.push(c);
    }
    out
}

/// Splits a text into its tokens: blanks and comments are dropped, every
/// other character belongs to exactly one token, the longest one that
/// starts where the previous one ended.
pub fn tokenize(s: &Vec<char>) -> (r: Vec<TokenData>)
    ensures
        views(r@) == lex(s@),
{
    let n = s.len();
    let mut i: usize = 0;
    let mut breaks: usize = 0;
    let mut out: Vec<TokenData> = Vec::new();
    proof {
        assert(s@.take(0) =~= Seq::<char>::empty());
        assert(views(out@) =~= Seq::<(C1Token, nat)>::empty());
    }
    while i < n
        invariant
            n == s@.len(),
            i <= n,
            breaks == newlines(s@.take(i as int)),
            breaks <= i,
            views(out@) + lex_from(s@, i as int) == lex(s@),
        decreases n - i,
    {
        let k = find_skip_end(s, i);
        if k != i {
            breaks = count_newlines(s, i, k, breaks);
            i = k;
        } else {
            let (tok, e) = scan_token(s, i);
            let data = TokenData { token: tok, line: breaks + 1 };
            let ghost before = views(out@);
            out.push(data);
            proof {
                assert(views(out@) =~= before.push((tok, line_at(s@, i as int))));
                assert(views(out@) + lex_from(s@, e as int) =~= before + lex_from(
                    s@,
                    i as int,
                ));
            }
            breaks = count_newlines(s, i, e, breaks);
            i = e;
        }
    }
    proof {
        assert(lex_from(s@, i as int) =~= Seq::<(C1Token, nat)>::empty());
        assert(views(out@) + Seq::<(C1Token, nat)>::empty() =~= views(out@));
    }
    out
}

// ---------------------------------------------------------------------
// The cursor
// ---------------------------------------------------------------------

/// The tokens of a text and a cursor on the current one.
pub struct C1Lexer {
    tokens: Vec<TokenData>,
    pos: usize,
}

impl C1Lexer {
    /// The token stream.
    pub closed spec fn tokens(&self) -> Seq<(C1Token, nat)> {
        views(self.tokens@)
    }

    /// The position of the current token; at the end of the stream there is none.
    pub closed spec fn pos(&self) -> int {
        self.pos as int
    }

    pub open spec fn wf(&self) -> bool {
        0 <= self.pos() <= self.tokens().len()
    }

    /// Lexes `text`; the cursor stands on its first token.
    pub fn new(text: &str) -> (r: C1Lexer)
        ensures
            r.wf(),
            r.tokens() == lex(text@),
            r.pos() == 0,
    {
        let chars = chars_of(text);
        let tokens = tokenize(&chars);
        C1Lexer { tokens, pos: 0 }
    }

    /// The current token, `None` at the end of the input.
    pub fn current_token(&self) -> (r: Option<C1Token>)
        requires
            self.wf(),
        ensures
            r == cur(self.tokens(), self.pos()),
    {
        if self.pos < self.tokens.len() {
            Some(self.tokens[self.pos].token)
        } else {
            None
        }
    }

    /// The line of the current token, `None` at the end of the input.
    pub fn current_line_number(&self) -> (r: Option<usize>)
        requires
            self.wf(),
        ensures
            r is None <==> cur_line(self.tokens(), self.pos()) is None,
            r matches Some(n) ==> cur_line(self.tokens(), self.pos()) == Some(n as nat),
    {
        if self.pos < self.tokens.len() {
            Some(self.tokens[self.pos].line)
        } else {
            None
        }
    }

    /// Moves the cursor to the next token; at the end of the input it stays.
    pub fn eat(&mut self)
        requires
            old(self).wf(),
        ensures
            final(self).wf(),
            final(self).tokens() == old(self).tokens(),
            final(self).pos() == if old(self).pos() < old(self).tokens().len() {
                old(self).pos() + 1
            } else {
                old(self).pos()
            },
    {
        if self.pos < self.tokens.len() {
            self.pos = self.pos + 1;
        }
    }
}

} // verus!
