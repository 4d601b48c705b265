//! The tokenizer that feeds the parser: one token at a time, with string literals
//! that may hold any character, two-character operators and property access.
use crate::lexer::lexer::{count_dots, is_letter, spec_is_letter, spec_is_valid_number};
use crate::text::{chars_eq, chars_of, is_ascii_digit, is_ascii_whitespace, spec_is_ascii_digit, spec_is_ascii_whitespace, string_from_range};
use vstd::prelude::*;

verus! {

#[derive(PartialEq, Eq, Debug, Clone, Copy, Structural)]
pub enum TokenKind {
    Identifier,
    Assign,
    // Keywords
    Var,
    Fn,
    Return,
    If,
    Else,
    While,
    Break,
    Continue,
    // Literals
    String,
    Number,
    True,
    False,
    Undefined,
    // Comparison and logical operators
    Bang,
    GreaterThan,
    LessThan,
    GreaterOrEqual,
    LessOrEqual,
    Equal,
    NotEqual,
    And,
    Or,
    // Arithmetic operators
    Plus,
    Minus,
    Divide,
    Times,
    // Separators / punctuators
    LeftParenthesis,
    RightParenthesis,
    LeftCurly,
    RightCurly,
    LeftBracket,
    RightBracket,
    Comma,
    Period,
    Colon,
    Illegal,
}

#[derive(PartialEq, Debug, Clone)]
pub struct Token {
    pub kind: TokenKind,
    pub value: String,
}

impl View for Token {
    type V = (TokenKind, Seq<char>);

    open spec fn view(&self) -> (TokenKind, Seq<char>) {
        (self.kind, self.value@)
    }
}

impl Token {
    pub fn new(value: &str, kind: TokenKind) -> (t: Token)
        ensures
            t@ == (kind, value@),
    {
        Token { value: value.to_owned(), kind }
    }

    /// A copy of the token.
    pub fn duplicate(&self) -> (t: Token)
        ensures
            t == *self,
    {
        Token { kind: self.kind, value: self.value.clone() }
    }
}

pub open spec fn token_views(tokens: Seq<Token>) -> Seq<(TokenKind, Seq<char>)> {
    tokens.map_values(|t: Token| t@)
}

pub proof fn lemma_token_views_push(tokens: Seq<Token>, t: Token)
    ensures
        token_views(tokens.push(t)) == token_views(tokens).push(t@),
{
    assert(token_views(tokens.push(t)) =~= token_views(tokens).push(t@));
}

/// Characters that only separate tokens.
pub open spec fn spec_is_separator(c: char) -> bool {
    spec_is_ascii_whitespace(c) || c == ';'
}

/// Characters that may follow the first character of an identifier or keyword.
pub open spec fn spec_is_word_char(c: char) -> bool {
    spec_is_letter(c) || spec_is_ascii_digit(c)
}

/// End of the identifier that continues at `j`.
pub open spec fn word_end(s: Seq<char>, j: int) -> int
    decreases s.len() - j,
{
    if 0 <= j < s.len() && spec_is_word_char(s[j]) {
        word_end(s, j + 1)
    } else {
        j
    }
}

/// End of the number word that continues at `j`.
pub open spec fn number_end(s: Seq<char>, j: int) -> int
    decreases s.len() - j,
{
    if 0 <= j < s.len() && (spec_is_word_char(s[j]) || s[j] == '.') {
        number_end(s, j + 1)
    } else {
        j
    }
}

/// Index of the first `"` at or after `j`, or `s.len()`.
pub open spec fn quote_index(s: Seq<char>, j: int) -> int
    decreases s.len() - j,
{
    if j < 0 || j >= s.len() {
        s.len() as int
    } else if s[j] == '"' {
        j
    } else {
        quote_index(s, j + 1)
    }
}

pub open spec fn spec_keyword(w: Seq<char>) -> Option<TokenKind> {
    if w == seq!['v', 'a', 'r'] {
        Some(TokenKind::Var)
    } else if w == seq!['f', 'n'] {
        Some(TokenKind::Fn)
    } else if w == seq!['r', 'e', 't', 'u', 'r', 'n'] {
        Some(TokenKind::Return)
    } else if w == seq!['i', 'f'] {
        Some(TokenKind::If)
    } else if w == seq!['e', 'l', 's', 'e'] {
        Some(TokenKind::Else)
    } else if w == seq!['w', 'h', 'i', 'l', 'e'] {
        Some(TokenKind::While)
    } else if w == seq!['b', 'r', 'e', 'a', 'k'] {
        Some(TokenKind::Break)
    } else if w == seq!['c', 'o', 'n', 't', 'i', 'n', 'u', 'e'] {
        Some(TokenKind::Continue)
    } else if w == seq!['t', 'r', 'u', 'e'] {
        Some(TokenKind::True)
    } else if w == seq!['f', 'a', 'l', 's', 'e'] {
        Some(TokenKind::False)
    } else if w == seq!['u', 'n', 'd', 'e', 'f', 'i', 'n', 'e', 'd'] {
        Some(TokenKind::Undefined)
    } else {
        None
    }
}

/// Operators of two characters.
pub open spec fn spec_double(a: char, b: char) -> Option<TokenKind> {
    if a == '>' && b == '=' {
        Some(TokenKind::GreaterOrEqual)
    } else if a == '<' && b == '=' {
        Some(TokenKind::LessOrEqual)
    } else if a == '=' && b == '=' {
        Some(TokenKind::Equal)
    } else if a == '!' && b == '=' {
        Some(TokenKind::NotEqual)
    } else if a == '&' && b == '&' {
        Some(TokenKind::And)
    } else if a == '|' && b == '|' {
        Some(TokenKind::Or)
    } else {
        None
    }
}

/// Operators and punctuation of one character.
pub open spec fn spec_single(c: char) -> Option<TokenKind> {
    if c == '=' {
        Some(TokenKind::Assign)
    } else if c == '!' {
        Some(TokenKind::Bang)
    } else if c == '>' {
        Some(TokenKind::GreaterThan)
    } else if c == '<' {
        Some(TokenKind::LessThan)
    } else if c == '+' {
        Some(TokenKind::Plus)
    } else if c == '-' {
        Some(TokenKind::Minus)
    } else if c == '/' {
        Some(TokenKind::Divide)
    } else if c == '*' {
        Some(TokenKind::Times)
    } else if c == '(' {
        Some(TokenKind::LeftParenthesis)
    } else if c == ')' {
        Some(TokenKind::RightParenthesis)
    } else if c == '{' {
        Some(TokenKind::LeftCurly)
    } else if c == '}' {
        Some(TokenKind::RightCurly)
    } else if c == '[' {
        Some(TokenKind::LeftBracket)
    } else if c == ']' {
        Some(TokenKind::RightBracket)
    } else if c == ',' {
        Some(TokenKind::Comma)
    } else if c == '.' {
        Some(TokenKind::Period)
    } else if c == ':' {
        Some(TokenKind::Colon)
    } else {
        None
    }
}

/// Whether a number starts at `i`: a digit, or a `.` directly followed by a digit.
pub open spec fn starts_number(s: Seq<char>, i: int) -> bool {
    spec_is_ascii_digit(s[i]) || (s[i] == '.' && i + 1 < s.len() && spec_is_ascii_digit(s[i + 1]))
}

/// The token that starts at `i` (a character that is not a separator) and the index
/// just after it.
pub open spec fn scan_token(s: Seq<char>, i: int) -> ((TokenKind, Seq<char>), int) {
    let c = s[i];
    if c == '"' {
        let k = quote_index(s, i + 1);
        if k < s.len() {
            ((TokenKind::String, s.subrange(i + 1, k)), k + 1)
        } else {
            ((TokenKind::Illegal, s.subrange(i, s.len() as int)), s.len() as int)
        }
    } else if spec_is_letter(c) {
        let j = word_end(s, i + 1);
        let w = s.subrange(i, j);
        match spec_keyword(w) {
            Some(kind) => ((kind, w), j),
            None => ((TokenKind::Identifier, w), j),
        }
    } else if starts_number(s, i) {
        let j = number_end(s, i + 1);
        let w = s.subrange(i, j);
        (
            (
                if spec_is_valid_number(w) {
                    TokenKind::Number
                } else {
                    TokenKind::Illegal
                },
                w,
            ),
            j,
        )
    } else if i + 1 < s.len() && spec_double(c, s[i + 1]) is Some {
        ((spec_double(c, s[i + 1]).unwrap(), s.subrange(i, i + 2)), i + 2)
    } else {
        match spec_single(c) {
            Some(kind) => ((kind, seq![c]), i + 1),
            None => ((TokenKind::Illegal, seq![c]), i + 1),
        }
    }
}

pub proof fn lemma_word_end(s: Seq<char>, j: int)
    requires
        0 <= j <= s.len(),
    ensures
        j <= word_end(s, j) <= s.len(),
    decreases s.len() - j,
{
    if j < s.len() && spec_is_word_char(s[j]) {
        lemma_word_end(s, j + 1);
    }
}

pub proof fn lemma_number_end(s: Seq<char>, j: int)
    requires
        0 <= j <= s.len(),
    ensures
        j <= number_end(s, j) <= s.len(),
    decreases s.len() - j,
{
    if j < s.len() && (spec_is_word_char(s[j]) || s[j] == '.') {
        lemma_number_end(s, j + 1);
    }
}

pub proof fn lemma_quote_index(s: Seq<char>, j: int)
    requires
        0 <= j <= s.len(),
    ensures
        j <= quote_index(s, j) <= s.len(),
        quote_index(s, j) < s.len() ==> s[quote_index(s, j)] == '"',
    decreases s.len() - j,
{
    if j < s.len() && s[j] != '"' {
        lemma_quote_index(s, j + 1);
    }
}

pub proof fn lemma_scan_token_advances(s: Seq<char>, i: int)
    requires
        0 <= i < s.len(),
    ensures
        i < scan_token(s, i).1 <= s.len(),
{
    lemma_word_end(s, i + 1);
    lemma_number_end(s, i + 1);
    lemma_quote_index(s, i + 1);
}

/// The tokens of `s` from index `i` on.
pub open spec fn scan_from(s: Seq<char>, i: int) -> Seq<(TokenKind, Seq<char>)>
    decreases s.len() - i,
{
    if i < 0 || i >= s.len() {
        seq![]
    } else if spec_is_separator(s[i]) {
        scan_from(s, i + 1)
    } else {
        let (t, j) = scan_token(s, i);
        proof {
            lemma_scan_token_advances(s, i);
        }
        seq![t] + scan_from(s, j)
    }
}

/// The tokens of a whole source text.
pub open spec fn spec_tokenize(text: Seq<char>) -> Seq<(TokenKind, Seq<char>)> {
    scan_from(text, 0)
}

pub struct Lexer {}

fn keyword(w: &Vec<char>) -> (r: Option<TokenKind>)
    ensures
        r == spec_keyword(w@),
{
    if chars_eq(w, &['v', 'a', 'r']) {
        Some(TokenKind::Var)
    } else if chars_eq(w, &['f', 'n']) {
        Some(TokenKind::Fn)
    } else if chars_eq(w, &['r', 'e', 't', 'u', 'r', 'n']) {
        Some(TokenKind::Return)
    } else if chars_eq(w, &['i', 'f']) {
        Some(TokenKind::If)
    } else if chars_eq(w, &['e', 'l', 's', 'e']) {
        Some(TokenKind::Else)
    } else if chars_eq(w, &['w', 'h', 'i', 'l', 'e']) {
        Some(TokenKind::While)
    } else if chars_eq(w, &['b', 'r', 'e', 'a', 'k']) {
        Some(TokenKind::Break)
    } else if chars_eq(w, &['c', 'o', 'n', 't', 'i', 'n', 'u', 'e']) {
        Some(TokenKind::Continue)
    } else if chars_eq(w, &['t', 'r', 'u', 'e']) {
        Some(TokenKind::True)
    } else if chars_eq(w, &['f', 'a', 'l', 's', 'e']) {
        Some(TokenKind::False)
    } else if chars_eq(w, &['u', 'n', 'd', 'e', 'f', 'i', 'n', 'e', 'd']) {
        Some(TokenKind::Undefined)
    } else {
        None
    }
}

fn double(a: char, b: char) -> (r: Option<TokenKind>)
    ensures
        r == spec_double(a, b),
{
    if a == '>' && b == '=' {
        Some(TokenKind::GreaterOrEqual)
    } else if a == '<' && b == '=' {
        Some(TokenKind::LessOrEqual)
    } else if a == '=' && b == '=' {
        Some(TokenKind::Equal)
    } else if a == '!' && b == '=' {
        Some(TokenKind::NotEqual)
    } else if a == '&' && b == '&' {
        Some(TokenKind::And)
    } else if a == '|' && b == '|' {
        Some(TokenKind::Or)
    } else {
        None
    }
}

fn single(c: char) -> (r: Option<TokenKind>)
    ensures
        r == spec_single(c),
{
    match c {
        '=' => Some(TokenKind::Assign),
        '!' => Some(TokenKind::Bang),
        '>' => Some(TokenKind::GreaterThan),
        '<' => Some(TokenKind::LessThan),
        '+' => Some(TokenKind::Plus),
        '-' => Some(TokenKind::Minus),
        '/' => Some(TokenKind::Divide),
        '*' => Some(TokenKind::Times),
        '(' => Some(TokenKind::LeftParenthesis),
        ')' => Some(TokenKind::RightParenthesis),
        '{' => Some(TokenKind::LeftCurly),
        '}' => Some(TokenKind::RightCurly),
        '[' => Some(TokenKind::LeftBracket),
        ']' => Some(TokenKind::RightBracket),
        ',' => Some(TokenKind::Comma),
        '.' => Some(TokenKind::Period),
        ':' => Some(TokenKind::Colon),
        _ => None,
    }
}

fn is_valid_number(w: &Vec<char>) -> (b: bool)
    ensures
        b == spec_is_valid_number(w@),
{
    let mut dots: usize = 0;
    let mut ok = true;
    let mut i: usize = 0;
    while i < w.len()
        invariant
            i <= w.len(),
            dots <= i,
            dots == count_dots(w@.take(i as int)),
            ok == forall|k: int|
                0 <= k < i ==> crate::lexer::lexer::spec_is_digit(#[trigger] w@[k]),
        decreases w.len() - i,
    {
        proof {
            assert(w@.take(i + 1).drop_last() == w@.take(i as int));
        }
        if w[i] == '.' {
            dots = dots + 1;
        }
        if !crate::lexer::lexer::is_digit(w[i]) {
            ok = false;
        }
        i = i + 1;
    }
    proof {
        assert(w@.take(w@.len() as int) == w@);
    }
    dots <= 1 && ok
}

fn subrange(s: &Vec<char>, from: usize, to: usize) -> (r: Vec<char>)
    requires
        from <= to <= s.len(),
    ensures
        r@ == s@.subrange(from as int, to as int),
{
    let mut r: Vec<char> = Vec::new();
    let mut i = from;
    while i < to
        invariant
            from <= i <= to <= s.len(),
            r@ == s@.subrange(from as int, i as int),
        decreases to - i,
    {
        r.push(s[i]);
        proof {
            assert(s@.subrange(from as int, i + 1) == s@.subrange(from as int, i as int).push(s@[i as int]));
        }
        i = i + 1;
    }
    r
}

/// Reads the token that starts at `i`.
fn read_token(s: &Vec<char>, i: usize) -> (r: (Token, usize))
    requires
        i < s.len(),
    ensures
        (r.0@, r.1 as int) == scan_token(s@, i as int),
{
    proof {
        lemma_scan_token_advances(s@, i as int);
        lemma_word_end(s@, i + 1);
        lemma_number_end(s@, i + 1);
        lemma_quote_index(s@, i + 1);
    }
    let n = s.len();
    let c = s[i];
    if c == '"' {
        let mut k = i + 1;
        while k < n && s[k] != '"'
            invariant
                i + 1 <= k <= n,
                n == s@.len(),
                quote_index(s@, i + 1) == quote_index(s@, k as int),
            decreases n - k,
        {
            k = k + 1;
        }
        if k < n {
            (Token { kind: TokenKind::String, value: string_from_range(s, i + 1, k) }, k + 1)
        } else {
            (Token { kind: TokenKind::Illegal, value: string_from_range(s, i, n) }, n)
        }
    } else if is_letter(c) {
        let mut j = i + 1;
        while j < n && (is_letter(s[j]) || is_ascii_digit(s[j]))
            invariant
                i + 1 <= j <= n,
                n == s@.len(),
                word_end(s@, i + 1) == word_end(s@, j as int),
            decreases n - j,
        {
            j = j + 1;
        }
        let w = subrange(s, i, j);
        let kind = match keyword(&w) {
            Some(kind) => kind,
            None => TokenKind::Identifier,
        };
        (Token { kind, value: string_from_range(s, i, j) }, j)
    } else if is_ascii_digit(c) || (c == '.' && i + 1 < n && is_ascii_digit(s[i + 1])) {
        let mut j = i + 1;
        while j < n && (is_letter(s[j]) || is_ascii_digit(s[j]) || s[j] == '.')
            invariant
                i + 1 <= j <= n,
                n == s@.len(),
                number_end(s@, i + 1) == number_end(s@, j as int),
            decreases n - j,
        {
            j = j + 1;
        }
        let w = subrange(s, i, j);
        let kind = if is_valid_number(&w) {
            TokenKind::Number
        } else {
            TokenKind::Illegal
        };
        (Token { kind, value: string_from_range(s, i, j) }, j)
    } else {
        let two = if i + 1 < n {
            double(c, s[i + 1])
        } else {
            None
        };
        match two {
            Some(kind) => (Token { kind, value: string_from_range(s, i, i + 2) }, i + 2),
            None => {
                let kind = match single(c) {
                    Some(kind) => kind,
                    None => TokenKind::Illegal,
                };
                let value = string_from_range(s, i, i + 1);
                proof {
                    assert(s@.subrange(i as int, i + 1) =~= seq![c]);
                }
                (Token { kind, value }, i + 1)
            },
        }
    }
}

impl Lexer {
    pub fn new() -> (l: Lexer) {
        Lexer {  }
    }

    /// Splits `input` into tokens, skipping whitespace and `;` between tokens.
    pub fn tokenize(&self, input: String) -> (tokens: Vec<Token>)
        ensures
            token_views(tokens@) == spec_tokenize(input@),
    {
        let s = chars_of(input.as_str());
        let n = s.len();
        let mut tokens: Vec<Token> = Vec::new();
        let mut i: usize = 0;
        while i < n
            invariant
                n == s@.len(),
                i <= n,
                s@ == input@,
                scan_from(s@, 0) == token_views(tokens@) + scan_from(s@, i as int),
            decreases n - i,
        {
            if is_ascii_whitespace(s[i]) || s[i] == ';' {
                i = i + 1;
            } else {
                let (t, j) = read_token(&s, i);
                proof {
                    lemma_scan_token_advances(s@, i as int);
                    lemma_token_views_push(tokens@, t);
                    assert(token_views(tokens@) + scan_from(s@, i as int) == token_views(tokens@.push(t)) + scan_from(s@, j as int));
                }
                tokens.push(t);
                i = j;
            }
        }
        proof {
            assert(token_views(tokens@) + Seq::<(TokenKind, Seq<char>)>::empty() == token_views(tokens@));
        }
        tokens
    }
}


/// No string literal of `tokens` is left open: no illegal token starts with `"`.
pub open spec fn strings_closed(tokens: Seq<(TokenKind, Seq<char>)>) -> bool {
    forall|k: int| 0 <= k < tokens.len() ==> !(#[trigger] tokens[k].0 is Illegal && tokens[k].1.len() > 0
        && tokens[k].1[0] == '"')
}

proof fn lemma_word_end_shift(p: Seq<char>, b: Seq<char>, j: int)
    requires
        0 <= j <= b.len(),
    ensures
        word_end(p + b, p.len() + j) == p.len() + word_end(b, j),
    decreases b.len() - j,
{
    if j < b.len() {
        assert((p + b)[p.len() + j] == b[j]);
        if spec_is_word_char(b[j]) {
            lemma_word_end_shift(p, b, j + 1);
        }
    }
}

proof fn lemma_number_end_shift(p: Seq<char>, b: Seq<char>, j: int)
    requires
        0 <= j <= b.len(),
    ensures
        number_end(p + b, p.len() + j) == p.len() + number_end(b, j),
    decreases b.len() - j,
{
    if j < b.len() {
        assert((p + b)[p.len() + j] == b[j]);
        if spec_is_word_char(b[j]) || b[j] == '.' {
            lemma_number_end_shift(p, b, j + 1);
        }
    }
}

proof fn lemma_quote_index_shift(p: Seq<char>, b: Seq<char>, j: int)
    requires
        0 <= j <= b.len(),
    ensures
        quote_index(p + b, p.len() + j) == p.len() + quote_index(b, j),
    decreases b.len() - j,
{
    if j < b.len() {
        assert((p + b)[p.len() + j] == b[j]);
        if b[j] != '"' {
            lemma_quote_index_shift(p, b, j + 1);
        }
    }
}

/// What follows a prefix is scanned as if the prefix were not there.
proof fn lemma_scan_from_shift(p: Seq<char>, b: Seq<char>, i: int)
    requires
        0 <= i <= b.len(),
    ensures
        scan_from(p + b, p.len() + i) == scan_from(b, i),
    decreases b.len() - i,
{
    let s = p + b;
    if i < b.len() {
        assert(s[p.len() + i] == b[i]);
        if spec_is_separator(b[i]) {
            lemma_scan_from_shift(p, b, i + 1);
        } else {
            lemma_word_end_shift(p, b, i + 1);
            lemma_number_end_shift(p, b, i + 1);
            lemma_quote_index_shift(p, b, i + 1);
            lemma_word_end(b, i + 1);
            lemma_number_end(b, i + 1);
            lemma_quote_index(b, i + 1);
            if i + 1 < b.len() {
                assert(s[p.len() + i + 1] == b[i + 1]);
            }
            let (t, j) = scan_token(b, i);
            lemma_scan_token_advances(b, i);
            assert forall|x: int, y: int| i <= x <= y <= b.len() implies #[trigger] s.subrange(p.len() + x, p.len() + y)
                == b.subrange(x, y) by {
                assert(s.subrange(p.len() + x, p.len() + y) =~= b.subrange(x, y));
            }
            assert(s.subrange(p.len() + i, s.len() as int) =~= b.subrange(i, b.len() as int));
            assert(scan_token(s, p.len() + i) == (t, p.len() + j));
            lemma_scan_from_shift(p, b, j);
        }
    }
}

proof fn lemma_word_end_prefix(a: Seq<char>, q: Seq<char>, j: int)
    requires
        0 <= j <= a.len(),
        q.len() > 0,
        q[0] == ' ',
    ensures
        word_end(a + q, j) == word_end(a, j),
    decreases a.len() - j,
{
    if j < a.len() {
        assert((a + q)[j] == a[j]);
        if spec_is_word_char(a[j]) {
            lemma_word_end_prefix(a, q, j + 1);
        }
    } else {
        assert((a + q)[j] == ' ');
    }
}

proof fn lemma_number_end_prefix(a: Seq<char>, q: Seq<char>, j: int)
    requires
        0 <= j <= a.len(),
        q.len() > 0,
        q[0] == ' ',
    ensures
        number_end(a + q, j) == number_end(a, j),
    decreases a.len() - j,
{
    if j < a.len() {
        assert((a + q)[j] == a[j]);
        if spec_is_word_char(a[j]) || a[j] == '.' {
            lemma_number_end_prefix(a, q, j + 1);
        }
    } else {
        assert((a + q)[j] == ' ');
    }
}

proof fn lemma_quote_index_prefix(a: Seq<char>, q: Seq<char>, j: int)
    requires
        0 <= j <= a.len(),
        quote_index(a, j) < a.len(),
    ensures
        quote_index(a + q, j) == quote_index(a, j),
    decreases a.len() - j,
{
    assert((a + q)[j] == a[j]);
    if a[j] != '"' {
        lemma_quote_index_prefix(a, q, j + 1);
    }
}

/// Where the text `a` is followed by a space and more, its tokens come first, unchanged.
#[verifier::spinoff_prover]
proof fn lemma_scan_from_prefix(a: Seq<char>, q: Seq<char>, i: int)
    requires
        0 <= i <= a.len(),
        q.len() > 0,
        q[0] == ' ',
        strings_closed(scan_from(a, i)),
    ensures
        scan_from(a + q, i) == scan_from(a, i) + scan_from(a + q, a.len() as int),
    decreases a.len() - i,
{
    let s = a + q;
    if i == a.len() {
        assert(scan_from(a, i) =~= Seq::<(TokenKind, Seq<char>)>::empty());
        assert(scan_from(a, i) + scan_from(s, i) =~= scan_from(s, i));
    } else {
        assert(s[i] == a[i]);
        if spec_is_separator(a[i]) {
            lemma_scan_from_prefix(a, q, i + 1);
        } else {
            lemma_word_end_prefix(a, q, i + 1);
            lemma_number_end_prefix(a, q, i + 1);
            lemma_word_end(a, i + 1);
            lemma_number_end(a, i + 1);
            lemma_quote_index(a, i + 1);
            if i + 1 < a.len() {
                assert(s[i + 1] == a[i + 1]);
            } else {
                assert(s[i + 1] == ' ');
            }
            let (t, j) = scan_token(a, i);
            lemma_scan_token_advances(a, i);
            assert(scan_from(a, i) == seq![t] + scan_from(a, j));
            assert((seq![t] + scan_from(a, j))[0] == t);
            if a[i] == '"' {
                if quote_index(a, i + 1) < a.len() {
                    lemma_quote_index_prefix(a, q, i + 1);
                } else {
                    assert(t.1 == a.subrange(i, a.len() as int));
                    assert(t.1[0] == '"');
                    assert(t.0 is Illegal);
                    assert(scan_from(a, i)[0] == t);
                    assert(!(scan_from(a, i)[0].0 is Illegal && scan_from(a, i)[0].1.len() > 0 && scan_from(a, i)[0].1[0] == '"'));
                    assert(false);
                }
            }
            assert forall|x: int, y: int| 0 <= x <= y <= a.len() implies #[trigger] s.subrange(x, y) == a.subrange(x, y) by {
                assert(s.subrange(x, y) =~= a.subrange(x, y));
            }
            assert(scan_token(s, i) == (t, j));
            assert forall|k: int| 0 <= k < scan_from(a, j).len() implies !(#[trigger] scan_from(a, j)[k].0 is Illegal
                && scan_from(a, j)[k].1.len() > 0 && scan_from(a, j)[k].1[0] == '"') by {
                assert(scan_from(a, i)[k + 1] == scan_from(a, j)[k]);
            }
            lemma_scan_from_prefix(a, q, j);
            assert(seq![t] + (scan_from(a, j) + scan_from(s, a.len() as int)) =~= (seq![t] + scan_from(a, j)) + scan_from(
                s,
                a.len() as int,
            ));
        }
    }
}

/// A space splits the token stream: the tokens of `a`, a space and `b` are those of `a`
/// followed by those of `b`, where `a` leaves no string literal open.
pub proof fn law_space_splits_tokens(a: Seq<char>, b: Seq<char>)
    requires
        strings_closed(spec_tokenize(a)),
    ensures
        spec_tokenize(a + seq![' '] + b) == spec_tokenize(a) + spec_tokenize(b),
{
    let q = seq![' '] + b;
    assert(a + seq![' '] + b =~= a + q);
    lemma_scan_from_prefix(a, q, 0);
    let s = a + q;
    assert(s[a.len() as int] == ' ');
    assert(spec_is_separator(' '));
    let p = a + seq![' '];
    assert(s =~= p + b);
    lemma_scan_from_shift(p, b, 0);
    assert(scan_from(s, a.len() as int) == scan_from(s, a.len() + 1int));
}

/// The operator or punctuation that the text `t` is on its own: each text of one or two
/// characters with the kind it reads as.
pub open spec fn operator_kind(t: Seq<char>) -> Option<TokenKind> {
    if t == seq!['>', '='] {
        Some(TokenKind::GreaterOrEqual)
    } else if t == seq!['<', '='] {
        Some(TokenKind::LessOrEqual)
    } else if t == seq!['=', '='] {
        Some(TokenKind::Equal)
    } else if t == seq!['!', '='] {
        Some(TokenKind::NotEqual)
    } else if t == seq!['&', '&'] {
        Some(TokenKind::And)
    } else if t == seq!['|', '|'] {
        Some(TokenKind::Or)
    } else if t == seq!['='] {
        Some(TokenKind::Assign)
    } else if t == seq!['!'] {
        Some(TokenKind::Bang)
    } else if t == seq!['>'] {
        Some(TokenKind::GreaterThan)
    } else if t == seq!['<'] {
        Some(TokenKind::LessThan)
    } else if t == seq!['+'] {
        Some(TokenKind::Plus)
    } else if t == seq!['-'] {
        Some(TokenKind::Minus)
    } else if t == seq!['/'] {
        Some(TokenKind::Divide)
    } else if t == seq!['*'] {
        Some(TokenKind::Times)
    } else if t == seq!['('] {
        Some(TokenKind::LeftParenthesis)
    } else if t == seq![')'] {
        Some(TokenKind::RightParenthesis)
    } else if t == seq!['{'] {
        Some(TokenKind::LeftCurly)
    } else if t == seq!['}'] {
        Some(TokenKind::RightCurly)
    } else if t == seq!['['] {
        Some(TokenKind::LeftBracket)
    } else if t == seq![']'] {
        Some(TokenKind::RightBracket)
    } else if t == seq![','] {
        Some(TokenKind::Comma)
    } else if t == seq!['.'] {
        Some(TokenKind::Period)
    } else if t == seq![':'] {
        Some(TokenKind::Colon)
    } else {
        None
    }
}

/// An operator or punctuation text on its own reads as one token of its own kind.
proof fn lemma_operator_alone(t: Seq<char>, kind: TokenKind)
    requires
        operator_kind(t) == Some(kind),
    ensures
        spec_tokenize(t) == seq![(kind, t)],
        strings_closed(spec_tokenize(t)),
{
    assert(!spec_is_separator(t[0]));
    if t == seq!['>', '='] {
        assert(scan_token(t, 0) == ((TokenKind::GreaterOrEqual, t.subrange(0, 2)), 2int));
        assert(t.subrange(0, 2) =~= t);
    }
    if t == seq!['<', '='] {
        assert(scan_token(t, 0) == ((TokenKind::LessOrEqual, t.subrange(0, 2)), 2int));
        assert(t.subrange(0, 2) =~= t);
    }
    if t == seq!['=', '='] {
        assert(scan_token(t, 0) == ((TokenKind::Equal, t.subrange(0, 2)), 2int));
        assert(t.subrange(0, 2) =~= t);
    }
    if t == seq!['!', '='] {
        assert(scan_token(t, 0) == ((TokenKind::NotEqual, t.subrange(0, 2)), 2int));
        assert(t.subrange(0, 2) =~= t);
    }
    if t == seq!['&', '&'] {
        assert(scan_token(t, 0) == ((TokenKind::And, t.subrange(0, 2)), 2int));
        assert(t.subrange(0, 2) =~= t);
    }
    if t == seq!['|', '|'] {
        assert(scan_token(t, 0) == ((TokenKind::Or, t.subrange(0, 2)), 2int));
        assert(t.subrange(0, 2) =~= t);
    }
    if t.len() == 1 {
        assert(scan_token(t, 0) == ((kind, seq![t[0]]), 1int));
        assert(seq![t[0]] =~= t);
    }
    assert(scan_from(t, t.len() as int) == Seq::<(TokenKind, Seq<char>)>::empty());
    assert(spec_tokenize(t) =~= seq![(kind, t)]);
}

/// Every operator and punctuation reads as its own kind wherever it stands between spaces:
/// the tokens of `a`, the operator and `b` are those of `a`, the operator's token, and those
/// of `b` (`!=` is `NotEqual`, `==` is `Equal`, `=` is `Assign`, and so on), where `a` leaves
/// no string literal open.
pub proof fn law_operators_read_as_their_kind(a: Seq<char>, t: Seq<char>, b: Seq<char>, kind: TokenKind)
    requires
        operator_kind(t) == Some(kind),
        strings_closed(spec_tokenize(a)),
    ensures
        spec_tokenize(a + seq![' '] + t + seq![' '] + b) == spec_tokenize(a) + seq![(kind, t)] + spec_tokenize(b),
{
    lemma_operator_alone(t, kind);
    let rest = t + seq![' '] + b;
    assert(a + seq![' '] + t + seq![' '] + b =~= a + seq![' '] + rest);
    law_space_splits_tokens(a, rest);
    law_space_splits_tokens(t, b);
    assert(spec_tokenize(a) + (seq![(kind, t)] + spec_tokenize(b)) =~= spec_tokenize(a) + seq![(kind, t)] + spec_tokenize(b));
}

/// A piece that reads as the one token `tok` reads as that token wherever it stands between
/// spaces.
proof fn lemma_between_spaces(a: Seq<char>, p: Seq<char>, b: Seq<char>, tok: (TokenKind, Seq<char>))
    requires
        spec_tokenize(p) == seq![tok],
        !(tok.0 is Illegal),
        strings_closed(spec_tokenize(a)),
    ensures
        spec_tokenize(a + seq![' '] + p + seq![' '] + b) == spec_tokenize(a) + seq![tok] + spec_tokenize(b),
{
    let rest = p + seq![' '] + b;
    assert(a + seq![' '] + p + seq![' '] + b =~= a + seq![' '] + rest);
    law_space_splits_tokens(a, rest);
    assert(strings_closed(spec_tokenize(p)));
    law_space_splits_tokens(p, b);
    assert(spec_tokenize(a) + (seq![tok] + spec_tokenize(b)) =~= spec_tokenize(a) + seq![tok] + spec_tokenize(b));
}

proof fn lemma_word_end_to_end(s: Seq<char>, j: int)
    requires
        0 <= j <= s.len(),
        forall|k: int| j <= k < s.len() ==> spec_is_word_char(#[trigger] s[k]),
    ensures
        word_end(s, j) == s.len(),
    decreases s.len() - j,
{
    if j < s.len() {
        lemma_word_end_to_end(s, j + 1);
    }
}

proof fn lemma_number_end_to_end(s: Seq<char>, j: int)
    requires
        0 <= j <= s.len(),
        forall|k: int| j <= k < s.len() ==> spec_is_ascii_digit(#[trigger] s[k]),
    ensures
        number_end(s, j) == s.len(),
    decreases s.len() - j,
{
    if j < s.len() {
        lemma_number_end_to_end(s, j + 1);
    }
}

pub proof fn lemma_no_dots(s: Seq<char>)
    requires
        forall|k: int| 0 <= k < s.len() ==> spec_is_ascii_digit(#[trigger] s[k]),
    ensures
        count_dots(s) == 0,
    decreases s.len(),
{
    if s.len() > 0 {
        assert(forall|k: int| 0 <= k < s.drop_last().len() ==> s.drop_last()[k] == s[k]);
        lemma_no_dots(s.drop_last());
        assert(spec_is_ascii_digit(s[s.len() - 1]));
    }
}

proof fn lemma_quote_index_at(s: Seq<char>, j: int, q: int)
    requires
        0 <= j <= q < s.len(),
        s[q] == '"',
        forall|k: int| j <= k < q ==> #[trigger] s[k] != '"',
    ensures
        quote_index(s, j) == q,
    decreases q - j,
{
    if j < q {
        lemma_quote_index_at(s, j + 1, q);
    }
}

/// The kind a word of letters, digits and `_` that starts with a letter reads as: each
/// keyword its own kind, any other word a name.
pub open spec fn word_kind(w: Seq<char>) -> TokenKind {
    if w == seq!['v', 'a', 'r'] {
        TokenKind::Var
    } else if w == seq!['f', 'n'] {
        TokenKind::Fn
    } else if w == seq!['r', 'e', 't', 'u', 'r', 'n'] {
        TokenKind::Return
    } else if w == seq!['i', 'f'] {
        TokenKind::If
    } else if w == seq!['e', 'l', 's', 'e'] {
        TokenKind::Else
    } else if w == seq!['w', 'h', 'i', 'l', 'e'] {
        TokenKind::While
    } else if w == seq!['b', 'r', 'e', 'a', 'k'] {
        TokenKind::Break
    } else if w == seq!['c', 'o', 'n', 't', 'i', 'n', 'u', 'e'] {
        TokenKind::Continue
    } else if w == seq!['t', 'r', 'u', 'e'] {
        TokenKind::True
    } else if w == seq!['f', 'a', 'l', 's', 'e'] {
        TokenKind::False
    } else if w == seq!['u', 'n', 'd', 'e', 'f', 'i', 'n', 'e', 'd'] {
        TokenKind::Undefined
    } else {
        TokenKind::Identifier
    }
}

/// A word reads as its keyword, or as a name, wherever it stands between spaces.
pub proof fn law_words_read_as_their_kind(a: Seq<char>, w: Seq<char>, b: Seq<char>)
    requires
        w.len() > 0,
        spec_is_letter(w[0]),
        forall|k: int| 0 <= k < w.len() ==> spec_is_word_char(#[trigger] w[k]),
        strings_closed(spec_tokenize(a)),
    ensures
        spec_tokenize(a + seq![' '] + w + seq![' '] + b) == spec_tokenize(a) + seq![(word_kind(w), w)] + spec_tokenize(b),
{
    lemma_word_end_to_end(w, 1);
    assert(w.subrange(0, w.len() as int) =~= w);
    assert(scan_token(w, 0) == ((word_kind(w), w), w.len() as int));
    assert(!spec_is_separator(w[0]));
    assert(scan_from(w, w.len() as int) == Seq::<(TokenKind, Seq<char>)>::empty());
    assert(spec_tokenize(w) =~= seq![(word_kind(w), w)]);
    lemma_between_spaces(a, w, b, (word_kind(w), w));
}

/// A whole number written in digits reads as a number token of those digits wherever it
/// stands between spaces.
pub proof fn law_numbers_read_as_numbers(a: Seq<char>, w: Seq<char>, b: Seq<char>)
    requires
        w.len() > 0,
        forall|k: int| 0 <= k < w.len() ==> spec_is_ascii_digit(#[trigger] w[k]),
        strings_closed(spec_tokenize(a)),
    ensures
        spec_tokenize(a + seq![' '] + w + seq![' '] + b) == spec_tokenize(a) + seq![(TokenKind::Number, w)] + spec_tokenize(b),
{
    lemma_number_end_to_end(w, 1);
    lemma_no_dots(w);
    assert(w.subrange(0, w.len() as int) =~= w);
    assert(spec_is_valid_number(w));
    assert(!spec_is_letter(w[0]));
    assert(scan_token(w, 0) == ((TokenKind::Number, w), w.len() as int));
    assert(!spec_is_separator(w[0]));
    assert(scan_from(w, w.len() as int) == Seq::<(TokenKind, Seq<char>)>::empty());
    assert(spec_tokenize(w) =~= seq![(TokenKind::Number, w)]);
    lemma_between_spaces(a, w, b, (TokenKind::Number, w));
}

/// A text in double quotes that holds no double quote reads as a string token of the text
/// between the quotes wherever it stands between spaces.
pub proof fn law_strings_read_as_their_text(a: Seq<char>, w: Seq<char>, b: Seq<char>)
    requires
        forall|k: int| 0 <= k < w.len() ==> #[trigger] w[k] != '"',
        strings_closed(spec_tokenize(a)),
    ensures
        spec_tokenize(a + seq![' '] + (seq!['"'] + w + seq!['"']) + seq![' '] + b) == spec_tokenize(a)
            + seq![(TokenKind::String, w)] + spec_tokenize(b),
{
    let q = seq!['"'] + w + seq!['"'];
    assert(forall|k: int| 1 <= k < w.len() + 1 ==> #[trigger] q[k] == w[k - 1]);
    lemma_quote_index_at(q, 1, w.len() + 1int);
    assert(q.subrange(1, w.len() + 1int) =~= w);
    assert(scan_token(q, 0) == ((TokenKind::String, w), q.len() as int));
    assert(!spec_is_separator(q[0]));
    assert(scan_from(q, q.len() as int) == Seq::<(TokenKind, Seq<char>)>::empty());
    assert(spec_tokenize(q) =~= seq![(TokenKind::String, w)]);
    lemma_between_spaces(a, q, b, (TokenKind::String, w));
}

} // verus!
