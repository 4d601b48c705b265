//! The statement lexer: turns DSL source text into a flat list of tokens.
use crate::text::{
    chars_eq, chars_of, is_ascii_alphabetic, is_ascii_digit, is_ascii_whitespace,
    spec_is_ascii_alphabetic, spec_is_ascii_digit, spec_is_ascii_whitespace, spec_is_whitespace,
    spec_trim, string_from_chars, trim,
};
use vstd::prelude::*;

verus! {

#[derive(PartialEq, Eq, Debug, Clone, Copy, Structural)]
pub enum TokenKind {
    Identifier,
    Assign,
    // Keywords
    Variable,
    Function,
    Return,
    If,
    Else,
    // Literals
    String,
    Number,
    True,
    False,
    // Comparison operators
    Bang,
    GreaterThan,
    LessThan,
    Equal,
    NotEqual,
    // Arithmetic operators
    Add,
    Subtract,
    Divide,
    Multiply,
    // Separators / punctuators
    LeftParenthesis,
    RightParenthesis,
    LeftCurly,
    RightCurly,
    LeftBracket,
    RightBracket,
    Comma,
    // Builtin
    Print,
    Illegal,
}

#[derive(PartialEq, Debug, Clone)]
pub struct Token {
    pub kind: TokenKind,
    pub value: String,
}

impl View for Token {
    type V = (TokenKind, Seq<char>);

    open spec fn view(&self) -> (TokenKind, Seq<char>) {
        (self.kind, self.value@)
    }
}

impl Token {
    pub fn new(value: &str, kind: TokenKind) -> (t: Token)
        ensures
            t@ == (kind, value@),
    {
        Token { value: value.to_owned(), kind }
    }
}

pub proof fn lemma_token_views_push(tokens: Seq<Token>, t: Token)
    ensures
        token_views(tokens.push(t)) == token_views(tokens).push(t@),
{
    assert(token_views(tokens.push(t)) =~= token_views(tokens).push(t@));
}

/// The abstract tokens of a token vector.
pub open spec fn token_views(tokens: Seq<Token>) -> Seq<(TokenKind, Seq<char>)> {
    tokens.map_values(|t: Token| t@)
}

pub open spec fn spec_lookup_keyword(s: Seq<char>) -> Option<TokenKind> {
    if s == seq!['v', 'a', 'r'] {
        Some(TokenKind::Variable)
    } else if s == seq!['t', 'r', 'u', 'e'] {
        Some(TokenKind::True)
    } else if s == seq!['f', 'a', 'l', 's', 'e'] {
        Some(TokenKind::False)
    } else if s == seq!['f', 'n'] {
        Some(TokenKind::Function)
    } else if s == seq!['r', 'e', 't', 'u', 'r', 'n'] {
        Some(TokenKind::Return)
    } else if s == seq!['i', 'f'] {
        Some(TokenKind::If)
    } else if s == seq!['e', 'l', 's', 'e'] {
        Some(TokenKind::Else)
    } else if s == seq!['p', 'r', 'i', 'n', 't'] {
        Some(TokenKind::Print)
    } else {
        None
    }
}

pub open spec fn spec_lookup_char(c: char) -> Option<TokenKind> {
    if c == '>' {
        Some(TokenKind::GreaterThan)
    } else if c == '<' {
        Some(TokenKind::LessThan)
    } else if c == '+' {
        Some(TokenKind::Add)
    } else if c == '-' {
        Some(TokenKind::Subtract)
    } else if c == '/' {
        Some(TokenKind::Divide)
    } else if c == '*' {
        Some(TokenKind::Multiply)
    } else if c == '(' {
        Some(TokenKind::LeftParenthesis)
    } else if c == ')' {
        Some(TokenKind::RightParenthesis)
    } else if c == '[' {
        Some(TokenKind::LeftBracket)
    } else if c == ']' {
        Some(TokenKind::RightBracket)
    } else if c == '{' {
        Some(TokenKind::LeftCurly)
    } else if c == '}' {
        Some(TokenKind::RightCurly)
    } else if c == ',' {
        Some(TokenKind::Comma)
    } else {
        None
    }
}

pub open spec fn spec_is_break_char(c: char) -> bool {
    spec_is_ascii_whitespace(c) || c == ';'
}

pub open spec fn spec_is_digit(c: char) -> bool {
    spec_is_ascii_digit(c) || c == '.'
}

pub open spec fn spec_is_letter(c: char) -> bool {
    spec_is_ascii_alphabetic(c) || c == '_'
}

/// Number of `'.'` characters in `s`.
pub open spec fn count_dots(s: Seq<char>) -> nat
    decreases s.len(),
{
    if s.len() == 0 {
        0
    } else {
        count_dots(s.drop_last()) + if s.last() == '.' {
            1nat
        } else {
            0nat
        }
    }
}

/// At most one decimal separator and nothing but digits and separators.
pub open spec fn spec_is_valid_number(s: Seq<char>) -> bool {
    count_dots(s) <= 1 && forall|i: int| 0 <= i < s.len() ==> spec_is_digit(#[trigger] s[i])
}

/// Starts and ends with a double quote.
pub open spec fn spec_is_valid_string(s: Seq<char>) -> bool {
    s.len() > 0 && s[0] == '"' && s.last() == '"'
}

/// The first character (if any) is a letter; every character is a letter or an ASCII digit.
pub open spec fn spec_is_valid_identifier(s: Seq<char>) -> bool {
    &&& (s.len() > 0 ==> spec_is_letter(s[0]))
    &&& forall|i: int|
        0 <= i < s.len() ==> spec_is_letter(#[trigger] s[i]) || spec_is_ascii_digit(s[i])
}

/// The token that the accumulated word `s` (non-empty) stands for.
pub open spec fn spec_text_to_token(s: Seq<char>) -> (TokenKind, Seq<char>) {
    match spec_lookup_keyword(s) {
        Some(kind) => (kind, s),
        None => {
            let value = if spec_is_valid_string(s) {
                s.subrange(1, s.len() - 1)
            } else {
                s
            };
            let kind = if spec_is_valid_number(s) {
                TokenKind::Number
            } else if spec_is_valid_identifier(s) {
                TokenKind::Identifier
            } else if spec_is_valid_string(s) {
                TokenKind::String
            } else {
                TokenKind::Illegal
            };
            (kind, value)
        },
    }
}

/// The tokens that the character at `i` emits once the current word is flushed,
/// and the index at which scanning resumes.
pub open spec fn spec_char_tokens(s: Seq<char>, i: int) -> (Seq<(TokenKind, Seq<char>)>, int) {
    let c = s[i];
    match spec_lookup_char(c) {
        Some(kind) => (seq![(kind, seq![c])], i + 1),
        None => if c == '!' {
            if i + 1 < s.len() && s[i + 1] == '=' {
                (seq![(TokenKind::NotEqual, seq!['!', '='])], i + 2)
            } else {
                (seq![(TokenKind::Bang, seq!['!'])], i + 1)
            }
        } else if c == '=' {
            if i + 1 < s.len() && s[i + 1] == '=' {
                (seq![(TokenKind::Equal, seq!['=', '='])], i + 2)
            } else {
                (seq![(TokenKind::Assign, seq!['='])], i + 1)
            }
        } else if spec_is_break_char(c) {
            (seq![], i + 1)
        } else {
            (seq![(TokenKind::Illegal, seq![c])], i + 1)
        },
    }
}

/// Whether `c` extends the word `cur` rather than ending it.
pub open spec fn extends_word(c: char, cur: Seq<char>) -> bool {
    ||| spec_is_digit(c) || spec_is_letter(c) || c == '"'
    ||| (c == ' ' && cur.len() > 0 && cur[0] == '"')
}

/// Scans `s` from index `i` with the partial word `cur`. `None` where the word to
/// flush is a lone double quote, the one input on which the lexer cannot produce a
/// string token (its value would be the text between two quotes that are one character).
pub open spec fn lex_from(s: Seq<char>, i: int, cur: Seq<char>) -> Option<
    Seq<(TokenKind, Seq<char>)>,
>
    decreases s.len() - i,
{
    if i < 0 || i >= s.len() {
        Some(seq![])
    } else if extends_word(s[i], cur) {
        lex_from(s, i + 1, cur.push(s[i]))
    } else if cur == seq!['"'] {
        None
    } else {
        let flushed = if cur.len() > 0 {
            seq![spec_text_to_token(cur)]
        } else {
            seq![]
        };
        let (emitted, next) = spec_char_tokens(s, i);
        match lex_from(s, next, seq![]) {
            Some(rest) => Some(flushed + emitted + rest),
            None => None,
        }
    }
}

/// The tokens of a source text: scanning starts on the trimmed text followed by a newline.
pub open spec fn spec_lexer(text: Seq<char>) -> Option<Seq<(TokenKind, Seq<char>)>> {
    lex_from(spec_trim(text) + seq!['\n'], 0, seq![])
}

pub open spec fn prepend(
    prefix: Seq<(TokenKind, Seq<char>)>,
    rest: Option<Seq<(TokenKind, Seq<char>)>>,
) -> Option<Seq<(TokenKind, Seq<char>)>> {
    match rest {
        Some(r) => Some(prefix + r),
        None => None,
    }
}

fn lookup_keyword(s: &Vec<char>) -> (r: Option<TokenKind>)
    ensures
        r == spec_lookup_keyword(s@),
{
    if chars_eq(s, &['v', 'a', 'r']) {
        Some(TokenKind::Variable)
    } else if chars_eq(s, &['t', 'r', 'u', 'e']) {
        Some(TokenKind::True)
    } else if chars_eq(s, &['f', 'a', 'l', 's', 'e']) {
        Some(TokenKind::False)
    } else if chars_eq(s, &['f', 'n']) {
        Some(TokenKind::Function)
    } else if chars_eq(s, &['r', 'e', 't', 'u', 'r', 'n']) {
        Some(TokenKind::Return)
    } else if chars_eq(s, &['i', 'f']) {
        Some(TokenKind::If)
    } else if chars_eq(s, &['e', 'l', 's', 'e']) {
        Some(TokenKind::Else)
    } else if chars_eq(s, &['p', 'r', 'i', 'n', 't']) {
        Some(TokenKind::Print)
    } else {
        None
    }
}

fn lookup_char(c: char) -> (r: Option<TokenKind>)
    ensures
        r == spec_lookup_char(c),
{
    match c {
        '>' => Some(TokenKind::GreaterThan),
        '<' => Some(TokenKind::LessThan),
        '+' => Some(TokenKind::Add),
        '-' => Some(TokenKind::Subtract),
        '/' => Some(TokenKind::Divide),
        '*' => Some(TokenKind::Multiply),
        '(' => Some(TokenKind::LeftParenthesis),
        ')' => Some(TokenKind::RightParenthesis),
        '[' => Some(TokenKind::LeftBracket),
        ']' => Some(TokenKind::RightBracket),
        '{' => Some(TokenKind::LeftCurly),
        '}' => Some(TokenKind::RightCurly),
        ',' => Some(TokenKind::Comma),
        _ => None,
    }
}

fn is_break_char(c: char) -> (b: bool)
    ensures
        b == spec_is_break_char(c),
{
    is_ascii_whitespace(c) || c == ';'
}

pub fn is_digit(c: char) -> (b: bool)
    ensures
        b == spec_is_digit(c),
{
    is_ascii_digit(c) || c == '.'
}

pub fn is_letter(c: char) -> (b: bool)
    ensures
        b == spec_is_letter(c),
{
    is_ascii_alphabetic(c) || c == '_'
}

fn is_valid_number(text: &Vec<char>) -> (b: bool)
    ensures
        b == spec_is_valid_number(text@),
{
    let mut dots: usize = 0;
    let mut all_digits = true;
    let mut i: usize = 0;
    while i < text.len()
        invariant
            i <= text.len(),
            dots <= i,
            dots == count_dots(text@.take(i as int)),
            all_digits == forall|k: int| 0 <= k < i ==> spec_is_digit(#[trigger] text@[k]),
        decreases text.len() - i,
    {
        proof {
            assert(text@.take(i + 1).drop_last() == text@.take(i as int));
        }
        if text[i] == '.' {
            dots = dots + 1;
        }
        if !is_digit(text[i]) {
            all_digits = false;
        }
        i = i + 1;
    }
    proof {
        assert(text@.take(text@.len() as int) == text@);
    }
    dots <= 1 && all_digits
}

fn is_valid_string(text: &Vec<char>) -> (b: bool)
    ensures
        b == spec_is_valid_string(text@),
{
    text.len() > 0 && text[0] == '"' && text[text.len() - 1] == '"'
}

fn is_valid_identifier(text: &Vec<char>) -> (b: bool)
    ensures
        b == spec_is_valid_identifier(text@),
{
    if text.len() > 0 && !is_letter(text[0]) {
        return false;
    }
    let mut i: usize = 0;
    while i < text.len()
        invariant
            i <= text.len(),
            text@.len() > 0 ==> spec_is_letter(text@[0]),
            forall|k: int|
                0 <= k < i ==> spec_is_letter(#[trigger] text@[k]) || spec_is_ascii_digit(
                    text@[k],
                ),
        decreases text.len() - i,
    {
        if !(is_letter(text[i]) || is_ascii_digit(text[i])) {
            return false;
        }
        i = i + 1;
    }
    true
}

fn text_to_token(text: &Vec<char>) -> (r: Option<Token>)
    requires
        text@ != seq!['"'],
    ensures
        text@.len() == 0 ==> r is None,
        text@.len() > 0 ==> (r matches Some(t) && t@ == spec_text_to_token(text@)),
{
    if text.len() == 0 {
        return None;
    }
    match lookup_keyword(text) {
        Some(kind) => Some(Token { value: string_from_chars(text), kind }),
        None => {
            let is_string = is_valid_string(text);
            proof {
                if is_string && text@.len() == 1 {
                    assert(text@ =~= seq!['"']);
                }
            }
            let value = if is_string {
                crate::text::string_from_range(text, 1, text.len() - 1)
            } else {
                string_from_chars(text)
            };
            let kind = if is_valid_number(text) {
                TokenKind::Number
            } else if is_valid_identifier(text) {
                TokenKind::Identifier
            } else if is_string {
                TokenKind::String
            } else {
                TokenKind::Illegal
            };
            Some(Token { value, kind })
        },
    }
}

fn token_of_char(c: char, kind: TokenKind) -> (t: Token)
    ensures
        t@ == (kind, seq![c]),
{
    let mut v: Vec<char> = Vec::new();
    v.push(c);
    proof {
        assert(v@ == seq![c]);
    }
    Token { value: string_from_chars(&v), kind }
}

/// Splits `text` into tokens. Words (runs of letters, digits, `.`, `_` and `"`, with
/// spaces kept inside a word that starts with a quote) become keywords, numbers,
/// identifiers, strings or illegal tokens; operators and punctuation become their own
/// tokens; whitespace and `;` only separate.
pub fn lexer(text: String) -> (tokens: Vec<Token>)
    requires
        spec_lexer(text@) is Some,
    ensures
        Some(token_views(tokens@)) == spec_lexer(text@),
{
    let mut s = trim(&chars_of(text.as_str()));
    s.push('\n');
    let ghost input = s@;
    assert(input == spec_trim(text@) + seq!['\n']);
    let n = s.len();
    let mut tokens: Vec<Token> = Vec::new();
    let mut current: Vec<char> = Vec::new();
    let mut i: usize = 0;
    while i < n
        invariant
            s@ == input,
            n == s@.len(),
            i <= n,
            lex_from(input, 0, seq![]) is Some,
            lex_from(input, 0, seq![]) == prepend(token_views(tokens@), lex_from(input, i as int, current@)),
        decreases n - i,
    {
        let c = s[i];
        if is_digit(c) || is_letter(c) || c == '"' {
            current.push(c);
            i = i + 1;
            continue;
        }
        if c == ' ' && current.len() > 0 && current[0] == '"' {
            current.push(c);
            i = i + 1;
            continue;
        }
        let ghost before = token_views(tokens@);
        let ghost cur = current@;
        proof {
            if cur == seq!['"'] {
                assert(lex_from(input, i as int, current@) is None);
            }
        }
        if let Some(token) = text_to_token(&current) {
            proof { lemma_token_views_push(tokens@, token); }
            tokens.push(token);
            current.clear();
        }
        let ghost flushed = if cur.len() > 0 { seq![spec_text_to_token(cur)] } else { seq![] };
        assert(token_views(tokens@) == before + flushed);
        assert(current@ == Seq::<char>::empty());
        let ghost (emitted, next) = spec_char_tokens(input, i as int);
        if let Some(kind) = lookup_char(c) {
            let t = token_of_char(c, kind);
            proof { lemma_token_views_push(tokens@, t); }
            tokens.push(t);
            i = i + 1;
        } else if c == '!' {
            if i + 1 < n && s[i + 1] == '=' {
                let t = Token::new("!=", TokenKind::NotEqual);
            proof { lemma_token_views_push(tokens@, t); }
            tokens.push(t);
                proof {
                    reveal_strlit("!=");
                    assert(t@.1 =~= seq!['!', '=']);
                }
                i = i + 2;
            } else {
                let t = Token::new("!", TokenKind::Bang);
            proof { lemma_token_views_push(tokens@, t); }
            tokens.push(t);
                proof {
                    reveal_strlit("!");
                    assert(t@.1 =~= seq!['!']);
                }
                i = i + 1;
            }
        } else if c == '=' {
            if i + 1 < n && s[i + 1] == '=' {
                let t = Token::new("==", TokenKind::Equal);
            proof { lemma_token_views_push(tokens@, t); }
            tokens.push(t);
                proof {
                    reveal_strlit("==");
                    assert(t@.1 =~= seq!['=', '=']);
                }
                i = i + 2;
            } else {
                let t = Token::new("=", TokenKind::Assign);
            proof { lemma_token_views_push(tokens@, t); }
            tokens.push(t);
                proof {
                    reveal_strlit("=");
                    assert(t@.1 =~= seq!['=']);
                }
                i = i + 1;
            }
        } else if is_break_char(c) {
            i = i + 1;
        } else {
            let t = token_of_char(c, TokenKind::Illegal);
            proof { lemma_token_views_push(tokens@, t); }
            tokens.push(t);
            i = i + 1;
        }
        proof {
            assert(token_views(tokens@) =~= before + flushed + emitted);
            assert(i == next);
            let rest = lex_from(input, next, seq![]);
            if rest is Some {
                assert(before + (flushed + emitted + rest.unwrap()) == token_views(tokens@) + rest.unwrap());
            }
        }
    }
    tokens
}

/// The word still being read when the scan of `s` from `i`, with the partial word `cur`,
/// reaches the end of `s`.
pub open spec fn open_word(s: Seq<char>, i: int, cur: Seq<char>) -> Seq<char>
    decreases s.len() - i,
{
    if i < 0 || i >= s.len() {
        cur
    } else if extends_word(s[i], cur) {
        open_word(s, i + 1, cur.push(s[i]))
    } else {
        open_word(s, spec_char_tokens(s, i).1, seq![])
    }
}

/// The tokens of two pieces read one after the other: both lists where both pieces can be
/// read, and nothing otherwise.
pub open spec fn join_tokens(
    x: Option<Seq<(TokenKind, Seq<char>)>>,
    y: Option<Seq<(TokenKind, Seq<char>)>>,
) -> Option<Seq<(TokenKind, Seq<char>)>> {
    match (x, y) {
        (Some(p), Some(q)) => Some(p + q),
        _ => None,
    }
}

/// Scanning `b` behind any prefix `p` reads as scanning `b` alone.
proof fn lemma_lex_from_shift(p: Seq<char>, b: Seq<char>, j: int, cur: Seq<char>)
    requires
        0 <= j,
    ensures
        lex_from(p + b, p.len() + j, cur) == lex_from(b, j, cur),
    decreases b.len() - j,
{
    let s = p + b;
    let i = p.len() + j;
    if j < b.len() {
        assert(s[i] == b[j]);
        if extends_word(b[j], cur) {
            lemma_lex_from_shift(p, b, j + 1, cur.push(b[j]));
        } else if cur != seq!['"'] {
            if j + 1 < b.len() {
                assert(s[i + 1] == b[j + 1]);
            }
            let (e1, n1) = spec_char_tokens(s, i);
            let (e2, n2) = spec_char_tokens(b, j);
            assert(e1 == e2 && n1 == n2 + p.len());
            lemma_lex_from_shift(p, b, n2, seq![]);
        }
    }
}

/// From `i` on, scanning `a`, a space and `b` reads the rest of `a` as scanning `a` and a
/// newline does, then `b` on its own, where the word open at the end of `a` is no string.
proof fn lemma_lex_space(a: Seq<char>, b: Seq<char>, i: int, cur: Seq<char>)
    requires
        0 <= i <= a.len(),
        !(open_word(a, i, cur).len() > 0 && open_word(a, i, cur)[0] == '"'),
    ensures
        lex_from(a + seq![' '] + b, i, cur) == join_tokens(lex_from(a + seq!['\n'], i, cur), lex_from(b, 0, seq![])),
    decreases a.len() - i,
{
    let s1 = a + seq![' '] + b;
    let s2 = a + seq!['\n'];
    if i == a.len() {
        assert(s1[i] == ' ');
        assert(s2[i] == '\n');
        let p = a + seq![' '];
        assert(s1 =~= p + b);
        lemma_lex_from_shift(p, b, 0, seq![]);
        assert(lex_from(s2, i + 1, seq![]) == Some(Seq::<(TokenKind, Seq<char>)>::empty()));
        let flushed = if cur.len() > 0 {
            seq![spec_text_to_token(cur)]
        } else {
            seq![]
        };
        match lex_from(b, 0, seq![]) {
            Some(q) => {
                assert(flushed + Seq::<(TokenKind, Seq<char>)>::empty() + q =~= (flushed
                    + Seq::<(TokenKind, Seq<char>)>::empty() + Seq::<(TokenKind, Seq<char>)>::empty()) + q);
            },
            None => {},
        }
    } else {
        assert(s1[i] == a[i]);
        assert(s2[i] == a[i]);
        if extends_word(a[i], cur) {
            lemma_lex_space(a, b, i + 1, cur.push(a[i]));
        } else if cur != seq!['"'] {
            if i + 1 < a.len() {
                assert(s1[i + 1] == a[i + 1]);
                assert(s2[i + 1] == a[i + 1]);
            } else {
                assert(s1[i + 1] == ' ');
                assert(s2[i + 1] == '\n');
            }
            let (e1, n1) = spec_char_tokens(s1, i);
            let (e2, n2) = spec_char_tokens(s2, i);
            let (e3, n3) = spec_char_tokens(a, i);
            assert(e1 == e3 && n1 == n3 && e2 == e3 && n2 == n3);
            lemma_lex_space(a, b, n3, seq![]);
            let flushed = if cur.len() > 0 {
                seq![spec_text_to_token(cur)]
            } else {
                seq![]
            };
            match (lex_from(s2, n3, seq![]), lex_from(b, 0, seq![])) {
                (Some(x), Some(y)) => {
                    assert(flushed + e3 + (x + y) =~= (flushed + e3 + x) + y);
                },
                _ => {},
            }
        }
    }
}

/// A text with no whitespace at either end trims to itself.
proof fn lemma_trim_bare(s: Seq<char>)
    requires
        s.len() > 0,
        !spec_is_whitespace(s[0]),
        !spec_is_whitespace(s[s.len() - 1]),
    ensures
        spec_trim(s) == s,
{
    assert(crate::text::first_non_whitespace(s, 0) == 0);
    assert(crate::text::end_without_whitespace(s, 0, s.len() as int) == s.len());
    assert(s.subrange(0, s.len() as int) =~= s);
}

/// A space splits the token stream: the tokens of `a`, a space and `b` are those of `a`
/// followed by those of `b`, where neither piece begins or ends with whitespace and the
/// last word of `a` opens no string literal; where either piece cannot be read, neither can
/// the whole.
pub proof fn law_space_splits_lexer(a: Seq<char>, b: Seq<char>)
    requires
        a.len() > 0,
        !spec_is_whitespace(a[0]),
        !spec_is_whitespace(a[a.len() - 1]),
        b.len() > 0,
        !spec_is_whitespace(b[0]),
        !spec_is_whitespace(b[b.len() - 1]),
        !(open_word(a, 0, seq![]).len() > 0 && open_word(a, 0, seq![])[0] == '"'),
    ensures
        spec_lexer(a + seq![' '] + b) == join_tokens(spec_lexer(a), spec_lexer(b)),
{
    let whole = a + seq![' '] + b;
    assert(whole[0] == a[0]);
    assert(whole[whole.len() - 1] == b[b.len() - 1]);
    lemma_trim_bare(a);
    lemma_trim_bare(b);
    lemma_trim_bare(whole);
    let tail = b + seq!['\n'];
    assert(whole + seq!['\n'] =~= a + seq![' '] + tail);
    lemma_lex_space(a, tail, 0, seq![]);
}

/// The operator or punctuation of a statement that the text `t` is on its own: each text of
/// one or two characters with the kind it reads as.
pub open spec fn statement_operator_kind(t: Seq<char>) -> Option<TokenKind> {
    if t == seq!['!', '='] {
        Some(TokenKind::NotEqual)
    } else if t == seq!['=', '='] {
        Some(TokenKind::Equal)
    } else if t == seq!['!'] {
        Some(TokenKind::Bang)
    } else if t == seq!['='] {
        Some(TokenKind::Assign)
    } else if t == seq!['>'] {
        Some(TokenKind::GreaterThan)
    } else if t == seq!['<'] {
        Some(TokenKind::LessThan)
    } else if t == seq!['+'] {
        Some(TokenKind::Add)
    } else if t == seq!['-'] {
        Some(TokenKind::Subtract)
    } else if t == seq!['/'] {
        Some(TokenKind::Divide)
    } else if t == seq!['*'] {
        Some(TokenKind::Multiply)
    } else if t == seq!['('] {
        Some(TokenKind::LeftParenthesis)
    } else if t == seq![')'] {
        Some(TokenKind::RightParenthesis)
    } else if t == seq!['['] {
        Some(TokenKind::LeftBracket)
    } else if t == seq![']'] {
        Some(TokenKind::RightBracket)
    } else if t == seq!['{'] {
        Some(TokenKind::LeftCurly)
    } else if t == seq!['}'] {
        Some(TokenKind::RightCurly)
    } else if t == seq![','] {
        Some(TokenKind::Comma)
    } else {
        None
    }
}

/// An operator or punctuation text on its own reads as one token of its own kind and leaves
/// no word open.
proof fn lemma_statement_operator_alone(t: Seq<char>, kind: TokenKind)
    requires
        statement_operator_kind(t) == Some(kind),
    ensures
        spec_lexer(t) == Some(seq![(kind, t)]),
        open_word(t, 0, seq![]) == Seq::<char>::empty(),
        t.len() > 0,
        !spec_is_whitespace(t[0]),
        !spec_is_whitespace(t[t.len() - 1]),
{
    assert(t.len() == 1 || t.len() == 2);
    assert(!spec_is_whitespace(t[0]));
    assert(!spec_is_whitespace(t[t.len() - 1]));
    lemma_trim_bare(t);
    let s = t + seq!['\n'];
    let n = t.len() as int;
    assert(s[n] == '\n');
    assert(s[0] == t[0]);
    if n == 2 {
        assert(s[1] == t[1]);
    }
    let none = Seq::<(TokenKind, Seq<char>)>::empty();
    assert(lex_from(s, n + 1, seq![]) == Some(none));
    assert(spec_char_tokens(s, n) == (none, n + 1));
    assert(none + none + none =~= none);
    assert(lex_from(s, n, seq![]) == Some(none));
    assert(spec_char_tokens(s, 0).0 =~= seq![(kind, t)]);
    assert(spec_char_tokens(s, 0).1 == n);
    assert(none + seq![(kind, t)] + none =~= seq![(kind, t)]);
    assert(lex_from(s, 0, seq![]) == Some(seq![(kind, t)]));
    assert(spec_char_tokens(t, 0).1 == n);
    assert(open_word(t, n, seq![]) == Seq::<char>::empty());
}

/// Every operator and punctuation of a statement reads as its own kind wherever it stands
/// between spaces: the tokens of `a`, the operator and `b` are those of `a`, the operator's
/// token and those of `b` (`!=` is `NotEqual`, `==` is `Equal`, `=` is `Assign`, and so on),
/// where `a` and `b` neither begin nor end with whitespace and `a` leaves no string open.
pub proof fn law_statement_operators_read_as_their_kind(a: Seq<char>, t: Seq<char>, b: Seq<char>, kind: TokenKind)
    requires
        statement_operator_kind(t) == Some(kind),
        a.len() > 0,
        !spec_is_whitespace(a[0]),
        !spec_is_whitespace(a[a.len() - 1]),
        b.len() > 0,
        !spec_is_whitespace(b[0]),
        !spec_is_whitespace(b[b.len() - 1]),
        !(open_word(a, 0, seq![]).len() > 0 && open_word(a, 0, seq![])[0] == '"'),
    ensures
        spec_lexer(a + seq![' '] + t + seq![' '] + b) == join_tokens(spec_lexer(a), join_tokens(
            Some(seq![(kind, t)]), spec_lexer(b))),
{
    lemma_statement_operator_alone(t, kind);
    let rest = t + seq![' '] + b;
    assert(rest[0] == t[0]);
    assert(rest[rest.len() - 1] == b[b.len() - 1]);
    assert(a + seq![' '] + t + seq![' '] + b =~= a + seq![' '] + rest);
    law_space_splits_lexer(a, rest);
    law_space_splits_lexer(t, b);
}

/// A word of a statement: letters, `_` and digits, or digits alone.
pub open spec fn plain_word(w: Seq<char>) -> bool {
    &&& w.len() > 0
    &&& forall|k: int| 0 <= k < w.len() ==> spec_is_letter(#[trigger] w[k]) || spec_is_ascii_digit(w[k])
}

/// The kind a word of a statement that starts with a letter reads as: each keyword its own
/// kind, any other word a name.
pub open spec fn statement_word_kind(w: Seq<char>) -> TokenKind {
    if w == seq!['v', 'a', 'r'] {
        TokenKind::Variable
    } else if w == seq!['t', 'r', 'u', 'e'] {
        TokenKind::True
    } else if w == seq!['f', 'a', 'l', 's', 'e'] {
        TokenKind::False
    } else if w == seq!['f', 'n'] {
        TokenKind::Function
    } else if w == seq!['r', 'e', 't', 'u', 'r', 'n'] {
        TokenKind::Return
    } else if w == seq!['i', 'f'] {
        TokenKind::If
    } else if w == seq!['e', 'l', 's', 'e'] {
        TokenKind::Else
    } else if w == seq!['p', 'r', 'i', 'n', 't'] {
        TokenKind::Print
    } else {
        TokenKind::Identifier
    }
}

/// Scanning a plain word followed by a line end reads the whole word as one token and
/// leaves it as the open word up to the line end.
proof fn lemma_lex_word(w: Seq<char>, i: int)
    requires
        plain_word(w),
        0 <= i <= w.len(),
    ensures
        lex_from(w + seq!['\n'], i, w.subrange(0, i)) == Some(seq![spec_text_to_token(w)]),
        open_word(w, i, w.subrange(0, i)) == w,
    decreases w.len() - i,
{
    let s = w + seq!['\n'];
    if i < w.len() {
        assert(s[i] == w[i]);
        assert(w.subrange(0, i).push(w[i]) =~= w.subrange(0, i + 1));
        lemma_lex_word(w, i + 1);
    } else {
        assert(w.subrange(0, i) =~= w);
        assert(s[i] == '\n');
        assert(w[0] != '"');
        let none = Seq::<(TokenKind, Seq<char>)>::empty();
        assert(lex_from(s, i + 1, seq![]) == Some(none));
        assert(spec_char_tokens(s, i) == (none, i + 1));
        assert(seq![spec_text_to_token(w)] + none + none =~= seq![spec_text_to_token(w)]);
    }
}

/// A plain word on its own reads as one token.
proof fn lemma_word_alone(w: Seq<char>)
    requires
        plain_word(w),
    ensures
        spec_lexer(w) == Some(seq![spec_text_to_token(w)]),
        open_word(w, 0, seq![]) == w,
        !spec_is_whitespace(w[0]),
        !spec_is_whitespace(w[w.len() - 1]),
{
    assert(spec_is_letter(w[0]) || spec_is_ascii_digit(w[0]));
    assert(spec_is_letter(w[w.len() - 1]) || spec_is_ascii_digit(w[w.len() - 1]));
    lemma_trim_bare(w);
    assert(w.subrange(0, 0) =~= Seq::<char>::empty());
    lemma_lex_word(w, 0);
}

/// A word of a statement that starts with a letter reads as its keyword, or as a name,
/// wherever it stands between spaces.
pub proof fn law_statement_words_read_as_their_kind(a: Seq<char>, w: Seq<char>, b: Seq<char>)
    requires
        plain_word(w),
        spec_is_letter(w[0]),
        a.len() > 0,
        !spec_is_whitespace(a[0]),
        !spec_is_whitespace(a[a.len() - 1]),
        b.len() > 0,
        !spec_is_whitespace(b[0]),
        !spec_is_whitespace(b[b.len() - 1]),
        !(open_word(a, 0, seq![]).len() > 0 && open_word(a, 0, seq![])[0] == '"'),
    ensures
        spec_lexer(a + seq![' '] + w + seq![' '] + b) == join_tokens(spec_lexer(a), join_tokens(
            Some(seq![(statement_word_kind(w), w)]), spec_lexer(b))),
{
    lemma_word_alone(w);
    assert(!spec_is_valid_number(w)) by {
        if spec_is_valid_number(w) {
            assert(spec_is_digit(w[0]));
        }
    }
    assert(!spec_is_valid_string(w));
    assert(spec_is_valid_identifier(w));
    assert(spec_text_to_token(w) == (statement_word_kind(w), w));
    let rest = w + seq![' '] + b;
    assert(rest[0] == w[0]);
    assert(rest[rest.len() - 1] == b[b.len() - 1]);
    assert(a + seq![' '] + w + seq![' '] + b =~= a + seq![' '] + rest);
    law_space_splits_lexer(a, rest);
    law_space_splits_lexer(w, b);
}

/// A whole number written in digits reads as a number token of those digits wherever it
/// stands between spaces in a statement.
pub proof fn law_statement_numbers_read_as_numbers(a: Seq<char>, w: Seq<char>, b: Seq<char>)
    requires
        w.len() > 0,
        forall|k: int| 0 <= k < w.len() ==> spec_is_ascii_digit(#[trigger] w[k]),
        a.len() > 0,
        !spec_is_whitespace(a[0]),
        !spec_is_whitespace(a[a.len() - 1]),
        b.len() > 0,
        !spec_is_whitespace(b[0]),
        !spec_is_whitespace(b[b.len() - 1]),
        !(open_word(a, 0, seq![]).len() > 0 && open_word(a, 0, seq![])[0] == '"'),
    ensures
        spec_lexer(a + seq![' '] + w + seq![' '] + b) == join_tokens(spec_lexer(a), join_tokens(
            Some(seq![(TokenKind::Number, w)]), spec_lexer(b))),
{
    assert(plain_word(w));
    lemma_word_alone(w);
    crate::lexer::scanner::lemma_no_dots(w);
    assert(spec_is_valid_number(w));
    assert(spec_lookup_keyword(w) is None) by {
        assert(!spec_is_ascii_alphabetic(w[0]));
    }
    assert(spec_text_to_token(w) == (TokenKind::Number, w));
    let rest = w + seq![' '] + b;
    assert(rest[0] == w[0]);
    assert(rest[rest.len() - 1] == b[b.len() - 1]);
    assert(a + seq![' '] + w + seq![' '] + b =~= a + seq![' '] + rest);
    law_space_splits_lexer(a, rest);
    law_space_splits_lexer(w, b);
}

/// Scanning a quoted text of letters, digits and spaces followed by a line end reads the
/// whole of it as one word.
proof fn lemma_lex_quoted(q: Seq<char>, i: int)
    requires
        q.len() >= 2,
        q[0] == '"',
        q[q.len() - 1] == '"',
        forall|k: int| 1 <= k < q.len() - 1 ==> spec_is_letter(#[trigger] q[k]) || spec_is_ascii_digit(q[k]) || q[k] == ' ',
        1 <= i <= q.len(),
    ensures
        lex_from(q + seq!['\n'], i, q.subrange(0, i)) == Some(seq![spec_text_to_token(q)]),
    decreases q.len() - i,
{
    let s = q + seq!['\n'];
    if i < q.len() {
        assert(s[i] == q[i]);
        assert(q.subrange(0, i)[0] == '"');
        assert(q.subrange(0, i).push(q[i]) =~= q.subrange(0, i + 1));
        lemma_lex_quoted(q, i + 1);
    } else {
        assert(q.subrange(0, i) =~= q);
        assert(s[i] == '\n');
        assert(q != seq!['"']);
        let none = Seq::<(TokenKind, Seq<char>)>::empty();
        assert(lex_from(s, i + 1, seq![]) == Some(none));
        assert(spec_char_tokens(s, i) == (none, i + 1));
        assert(seq![spec_text_to_token(q)] + none + none =~= seq![spec_text_to_token(q)]);
    }
}

/// A text in double quotes of letters, digits and spaces at the end of a statement reads as
/// a string token of the text between the quotes.
pub proof fn law_statement_strings_read_as_their_text(a: Seq<char>, w: Seq<char>)
    requires
        forall|k: int| 0 <= k < w.len() ==> spec_is_letter(#[trigger] w[k]) || spec_is_ascii_digit(w[k]) || w[k] == ' ',
        a.len() > 0,
        !spec_is_whitespace(a[0]),
        !spec_is_whitespace(a[a.len() - 1]),
        !(open_word(a, 0, seq![]).len() > 0 && open_word(a, 0, seq![])[0] == '"'),
    ensures
        spec_lexer(a + seq![' '] + (seq!['"'] + w + seq!['"'])) == join_tokens(spec_lexer(a), Some(seq![(TokenKind::String, w)])),
{
    let q = seq!['"'] + w + seq!['"'];
    assert(forall|k: int| 1 <= k < q.len() - 1 ==> #[trigger] q[k] == w[k - 1]);
    assert(q[0] == '"');
    assert(q[q.len() - 1] == '"');
    lemma_trim_bare(q);
    let s = q + seq!['\n'];
    assert(s[0] == '"');
    assert(seq!['"'] =~= q.subrange(0, 1));
    lemma_lex_quoted(q, 1);
    assert(lex_from(s, 0, seq![]) == lex_from(s, 1, q.subrange(0, 1)));
    assert(spec_lookup_keyword(q) is None);
    assert(!spec_is_valid_number(q)) by {
        if spec_is_valid_number(q) {
            assert(spec_is_digit(q[0]));
        }
    }
    assert(!spec_is_valid_identifier(q)) by {
        assert(!spec_is_letter(q[0]));
    }
    assert(q.subrange(1, q.len() - 1) =~= w);
    assert(spec_text_to_token(q) == (TokenKind::String, w));
    law_space_splits_lexer(a, q);
}

} // verus!
