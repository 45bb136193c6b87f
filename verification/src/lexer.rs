//! The scanner: turns source text into a token sequence ending in `EOF`.
//!
//! `spec_lex` is the mathematical scanner over the character sequence of the
//! source; `lex` is the executable one, proved to produce exactly the tokens
//! `spec_lex` describes. Whitespace is skipped, identifiers and numerals are
//! maximal-munch, a malformed numeral falls back to 0.0, an unterminated
//! string literal silently ends at end of input, and any unrecognized
//! character is discarded without a token.

use crate::num::{parsed_bits, NUM_ZERO};
use crate::text::{
    alpha_char, char_is_alpha, char_is_numeric, char_is_space, chars_to_string, digit_char,
    is_digit_char, numeric_char, space_char, str_to_chars,
};
use vstd::prelude::*;

verus! {

/// One lexical unit of the language.
#[derive(Debug, Clone)]
pub enum Token {
    Print,
    If,
    Else,
    Function,
    Identifier(String),
    StringLiteral(String),
    /// A number literal, as the bit pattern of the double it denotes.
    NumberLiteral(u64),
    Assign,
    Plus,
    Minus,
    Star,
    Slash,
    EqualEqual,
    NotEqual,
    LessThan,
    GreaterThan,
    LessEqual,
    GreaterEqual,
    Bang,
    Comma,
    Semicolon,
    LeftParen,
    RightParen,
    LeftBrace,
    RightBrace,
    EOF,
}

/// The mathematical shape of a token: text carried as a character sequence.
pub ghost enum TokenModel {
    Print,
    If,
    Else,
    Function,
    Identifier(Seq<char>),
    StringLiteral(Seq<char>),
    NumberLiteral(u64),
    Assign,
    Plus,
    Minus,
    Star,
    Slash,
    EqualEqual,
    NotEqual,
    LessThan,
    GreaterThan,
    LessEqual,
    GreaterEqual,
    Bang,
    Comma,
    Semicolon,
    LeftParen,
    RightParen,
    LeftBrace,
    RightBrace,
    EOF,
}

impl View for Token {
    type V = TokenModel;

    open spec fn view(&self) -> TokenModel {
        match self {
            Token::Print => TokenModel::Print,
            Token::If => TokenModel::If,
            Token::Else => TokenModel::Else,
            Token::Function => TokenModel::Function,
            Token::Identifier(s) => TokenModel::Identifier(s@),
            Token::StringLiteral(s) => TokenModel::StringLiteral(s@),
            Token::NumberLiteral(b) => TokenModel::NumberLiteral(*b),
            Token::Assign => TokenModel::Assign,
            Token::Plus => TokenModel::Plus,
            Token::Minus => TokenModel::Minus,
            Token::Star => TokenModel::Star,
            Token::Slash => TokenModel::Slash,
            Token::EqualEqual => TokenModel::EqualEqual,
            Token::NotEqual => TokenModel::NotEqual,
            Token::LessThan => TokenModel::LessThan,
            Token::GreaterThan => TokenModel::GreaterThan,
            Token::LessEqual => TokenModel::LessEqual,
            Token::GreaterEqual => TokenModel::GreaterEqual,
            Token::Bang => TokenModel::Bang,
            Token::Comma => TokenModel::Comma,
            Token::Semicolon => TokenModel::Semicolon,
            Token::LeftParen => TokenModel::LeftParen,
            Token::RightParen => TokenModel::RightParen,
            Token::LeftBrace => TokenModel::LeftBrace,
            Token::RightBrace => TokenModel::RightBrace,
            Token::EOF => TokenModel::EOF,
        }
    }
}

/// The models of a token sequence.
pub open spec fn toks_view(ts: Seq<Token>) -> Seq<TokenModel> {
    ts.map_values(|t: Token| t@)
}

/// Whether a character may continue an identifier.
pub open spec fn ident_char(c: char) -> bool {
    alpha_char(c) || numeric_char(c) || c == '_'
}

/// Whether a character may continue a numeral.
pub open spec fn numeral_char(c: char) -> bool {
    digit_char(c) || c == '.'
}

/// The first position at or after `i` that cannot continue an identifier.
pub open spec fn ident_end(s: Seq<char>, i: int) -> int
    decreases s.len() - i,
{
    if 0 <= i < s.len() && ident_char(s[i]) {
        ident_end(s, i + 1)
    } else {
        i
    }
}

/// The first position at or after `i` that cannot continue a numeral.
pub open spec fn number_end(s: Seq<char>, i: int) -> int
    decreases s.len() - i,
{
    if 0 <= i < s.len() && numeral_char(s[i]) {
        number_end(s, i + 1)
    } else {
        i
    }
}

/// The first position at or after `i` holding a double quote, or the length
/// of the text if there is none.
pub open spec fn quote_end(s: Seq<char>, i: int) -> int
    decreases s.len() - i,
{
    if 0 <= i < s.len() {
        if s[i] == '"' {
            i
        } else {
            quote_end(s, i + 1)
        }
    } else {
        i
    }
}

pub proof fn lemma_ident_end_bounds(s: Seq<char>, i: int)
    requires
        0 <= i <= s.len(),
    ensures
        i <= ident_end(s, i) <= s.len(),
    decreases s.len() - i,
{
    if i < s.len() && ident_char(s[i]) {
        lemma_ident_end_bounds(s, i + 1);
    }
}

pub proof fn lemma_number_end_bounds(s: Seq<char>, i: int)
    requires
        0 <= i <= s.len(),
    ensures
        i <= number_end(s, i) <= s.len(),
    decreases s.len() - i,
{
    if i < s.len() && numeral_char(s[i]) {
        lemma_number_end_bounds(s, i + 1);
    }
}

pub proof fn lemma_quote_end_bounds(s: Seq<char>, i: int)
    requires
        0 <= i <= s.len(),
    ensures
        i <= quote_end(s, i) <= s.len(),
    decreases s.len() - i,
{
    if i < s.len() && s[i] != '"' {
        lemma_quote_end_bounds(s, i + 1);
    }
}

/// The bits a numeral denotes: what it parses to, or 0.0 where malformed.
pub open spec fn numeral_bits(t: Seq<char>) -> u64 {
    match parsed_bits(t) {
        Some(b) => b,
        None => NUM_ZERO,
    }
}

/// The token an identifier-shaped word scans to: a keyword where the text
/// matches one, otherwise a generic identifier.
pub open spec fn keyword_or_ident(w: Seq<char>) -> TokenModel {
    if w == "print"@ {
        TokenModel::Print
    } else if w == "if"@ {
        TokenModel::If
    } else if w == "else"@ {
        TokenModel::Else
    } else if w == "func"@ {
        TokenModel::Function
    } else {
        TokenModel::Identifier(w)
    }
}

/// The tokens scanned from position `i` on, before the end marker.
pub open spec fn spec_lex_core(s: Seq<char>, i: int) -> Seq<TokenModel>
    decreases s.len() - i,
{
    if !(0 <= i < s.len()) {
        Seq::empty()
    } else {
        let c = s[i];
        if space_char(c) {
            spec_lex_core(s, i + 1)
        } else if alpha_char(c) || c == '_' {
            let j = ident_end(s, i);
            let rest = if i < j <= s.len() {
                spec_lex_core(s, j)
            } else {
                spec_lex_core(s, i + 1)
            };
            seq![keyword_or_ident(s.subrange(i, j))] + rest
        } else if digit_char(c) {
            let j = number_end(s, i);
            let rest = if i < j <= s.len() {
                spec_lex_core(s, j)
            } else {
                spec_lex_core(s, i + 1)
            };
            seq![TokenModel::NumberLiteral(numeral_bits(s.subrange(i, j)))] + rest
        } else if c == '"' {
            let q = quote_end(s, i + 1);
            let k = if q < s.len() {
                q + 1
            } else {
                q
            };
            let rest = if i < k <= s.len() {
                spec_lex_core(s, k)
            } else {
                spec_lex_core(s, i + 1)
            };
            seq![TokenModel::StringLiteral(s.subrange(i + 1, q))] + rest
        } else if c == '=' {
            if i + 1 < s.len() && s[i + 1] == '=' {
                seq![TokenModel::EqualEqual] + spec_lex_core(s, i + 2)
            } else {
                seq![TokenModel::Assign] + spec_lex_core(s, i + 1)
            }
        } else if c == '!' {
            if i + 1 < s.len() && s[i + 1] == '=' {
                seq![TokenModel::NotEqual] + spec_lex_core(s, i + 2)
            } else {
                seq![TokenModel::Bang] + spec_lex_core(s, i + 1)
            }
        } else if c == '<' {
            if i + 1 < s.len() && s[i + 1] == '=' {
                seq![TokenModel::LessEqual] + spec_lex_core(s, i + 2)
            } else {
                seq![TokenModel::LessThan] + spec_lex_core(s, i + 1)
            }
        } else if c == '>' {
            if i + 1 < s.len() && s[i + 1] == '=' {
                seq![TokenModel::GreaterEqual] + spec_lex_core(s, i + 2)
            } else {
                seq![TokenModel::GreaterThan] + spec_lex_core(s, i + 1)
            }
        } else if c == '+' {
            seq![TokenModel::Plus] + spec_lex_core(s, i + 1)
        } else if c == '-' {
            seq![TokenModel::Minus] + spec_lex_core(s, i + 1)
        } else if c == '*' {
            seq![TokenModel::Star] + spec_lex_core(s, i + 1)
        } else if c == '/' {
            seq![TokenModel::Slash] + spec_lex_core(s, i + 1)
        } else if c == ',' {
            seq![TokenModel::Comma] + spec_lex_core(s, i + 1)
        } else if c == ';' {
            seq![TokenModel::Semicolon] + spec_lex_core(s, i + 1)
        } else if c == '(' {
            seq![TokenModel::LeftParen] + spec_lex_core(s, i + 1)
        } else if c == ')' {
            seq![TokenModel::RightParen] + spec_lex_core(s, i + 1)
        } else if c == '{' {
            seq![TokenModel::LeftBrace] + spec_lex_core(s, i + 1)
        } else if c == '}' {
            seq![TokenModel::RightBrace] + spec_lex_core(s, i + 1)
        } else {
            spec_lex_core(s, i + 1)
        }
    }
}

/// The full scan of a source text: its tokens followed by one end marker.
pub open spec fn spec_lex(s: Seq<char>) -> Seq<TokenModel> {
    spec_lex_core(s, 0) + seq![TokenModel::EOF]
}

/// No token scanned from the text itself is the end marker; only the final
/// appended one is. Together with `lex`'s contract this says every scan ends
/// with exactly one end marker.
pub proof fn lemma_lex_core_no_end_marker(s: Seq<char>, i: int)
    ensures
        forall|k: int|
            0 <= k < spec_lex_core(s, i).len() ==> spec_lex_core(s, i)[k] != TokenModel::EOF,
    decreases s.len() - i,
{
    if !(0 <= i < s.len()) {
    } else {
        let c = s[i];
        if space_char(c) {
            lemma_lex_core_no_end_marker(s, i + 1);
        } else if alpha_char(c) || c == '_' {
            let j = ident_end(s, i);
            lemma_ident_end_bounds(s, i);
            if i < j <= s.len() {
                lemma_lex_core_no_end_marker(s, j);
            } else {
                lemma_lex_core_no_end_marker(s, i + 1);
            }
            assert(keyword_or_ident(s.subrange(i, j)) != TokenModel::EOF);
        } else if digit_char(c) {
            let j = number_end(s, i);
            lemma_number_end_bounds(s, i);
            if i < j <= s.len() {
                lemma_lex_core_no_end_marker(s, j);
            } else {
                lemma_lex_core_no_end_marker(s, i + 1);
            }
        } else if c == '"' {
            let q = quote_end(s, i + 1);
            lemma_quote_end_bounds(s, i + 1);
            let k = if q < s.len() {
                q + 1
            } else {
                q
            };
            if i < k <= s.len() {
                lemma_lex_core_no_end_marker(s, k);
            } else {
                lemma_lex_core_no_end_marker(s, i + 1);
            }
        } else if (c == '=' || c == '!' || c == '<' || c == '>') && i + 1 < s.len() && s[i + 1]
            == '=' {
            lemma_lex_core_no_end_marker(s, i + 2);
        } else {
            lemma_lex_core_no_end_marker(s, i + 1);
        }
    }
}

/// Every scan ends with exactly one end marker: the last token is `EOF` and
/// no earlier one is.
pub proof fn lemma_lex_one_end_marker(s: Seq<char>)
    ensures
        spec_lex(s).len() >= 1,
        spec_lex(s).last() == TokenModel::EOF,
        forall|k: int| 0 <= k < spec_lex(s).len() - 1 ==> spec_lex(s)[k] != TokenModel::EOF,
{
    lemma_lex_core_no_end_marker(s, 0);
}

/// The maximal identifier run of `chars` starting at `from`, and the
/// position just past it.
pub fn collect_identifier(chars: &Vec<char>, from: usize) -> (r: (String, usize))
    requires
        from <= chars@.len(),
    ensures
        from <= r.1 <= chars@.len(),
        r.1 == ident_end(chars@, from as int),
        r.0@ == chars@.subrange(from as int, r.1 as int),
{
    let ghost s = chars@;
    let n = chars.len();
    let mut collected: Vec<char> = Vec::new();
    let mut j = from;
    loop
        invariant
            from <= j <= n,
            n == s.len(),
            chars@ == s,
            ident_end(s, from as int) == ident_end(s, j as int),
            collected@ == s.subrange(from as int, j as int),
        ensures
            from <= j <= n,
            collected@ == s.subrange(from as int, j as int),
            j as int == ident_end(s, from as int),
        decreases n - j,
    {
        if j < n {
            let c = chars[j];
            if char_is_alpha(c) || char_is_numeric(c) || c == '_' {
                collected.push(c);
                j = j + 1;
                proof {
                    assert(s.subrange(from as int, j as int) =~= s.subrange(
                        from as int,
                        j - 1 as int,
                    ).push(s[j - 1 as int]));
                }
                continue ;
            }
        }
        proof {
            assert(ident_end(s, j as int) == j as int);
        }
        break ;
    }
    (chars_to_string(&collected), j)
}

/// The maximal numeral run of `chars` starting at `from`: the bits it
/// denotes (0.0 where malformed) and the position just past it.
pub fn collect_number(chars: &Vec<char>, from: usize) -> (r: (u64, usize))
    requires
        from <= chars@.len(),
    ensures
        from <= r.1 <= chars@.len(),
        r.1 == number_end(chars@, from as int),
        r.0 == numeral_bits(chars@.subrange(from as int, r.1 as int)),
{
    let ghost s = chars@;
    let n = chars.len();
    let mut collected: Vec<char> = Vec::new();
    let mut j = from;
    loop
        invariant
            from <= j <= n,
            n == s.len(),
            chars@ == s,
            number_end(s, from as int) == number_end(s, j as int),
            collected@ == s.subrange(from as int, j as int),
        ensures
            from <= j <= n,
            collected@ == s.subrange(from as int, j as int),
            j as int == number_end(s, from as int),
        decreases n - j,
    {
        if j < n {
            let c = chars[j];
            if is_digit_char(c) || c == '.' {
                collected.push(c);
                j = j + 1;
                proof {
                    assert(s.subrange(from as int, j as int) =~= s.subrange(
                        from as int,
                        j - 1 as int,
                    ).push(s[j - 1 as int]));
                }
                continue ;
            }
        }
        proof {
            assert(number_end(s, j as int) == j as int);
        }
        break ;
    }
    let t = chars_to_string(&collected);
    let bits = match crate::num::num_parse(t.as_str()) {
        Some(b) => b,
        None => NUM_ZERO,
    };
    (bits, j)
}

/// The string-literal body of `chars` starting at `from` (just past the
/// opening quote): the collected text and the position just past the closing
/// quote, or the end of input where the literal is unterminated.
pub fn collect_string_literal(chars: &Vec<char>, from: usize) -> (r: (String, usize))
    requires
        from <= chars@.len(),
    ensures
        from <= r.1 <= chars@.len(),
        r.0@ == chars@.subrange(from as int, quote_end(chars@, from as int)),
        r.1 == if quote_end(chars@, from as int) < chars@.len() {
            quote_end(chars@, from as int) + 1
        } else {
            quote_end(chars@, from as int)
        },
{
    let ghost s = chars@;
    let n = chars.len();
    let mut collected: Vec<char> = Vec::new();
    let mut j = from;
    loop
        invariant
            from <= j <= n,
            n == s.len(),
            chars@ == s,
            quote_end(s, from as int) == quote_end(s, j as int),
            collected@ == s.subrange(from as int, j as int),
        ensures
            from <= j <= n,
            collected@ == s.subrange(from as int, j as int),
            j as int == quote_end(s, from as int),
        decreases n - j,
    {
        if j < n {
            let c = chars[j];
            if c != '"' {
                collected.push(c);
                j = j + 1;
                proof {
                    assert(s.subrange(from as int, j as int) =~= s.subrange(
                        from as int,
                        j - 1 as int,
                    ).push(s[j - 1 as int]));
                }
                continue ;
            }
        }
        proof {
            assert(quote_end(s, j as int) == j as int);
        }
        break ;
    }
    let text = chars_to_string(&collected);
    if j < n {
        (text, j + 1)
    } else {
        (text, j)
    }
}

/// The keyword this word names, or a generic identifier token.
fn classify_word(w: String) -> (t: Token)
    ensures
        t@ == keyword_or_ident(w@),
{
    if w == "print".to_owned() {
        Token::Print
    } else if w == "if".to_owned() {
        Token::If
    } else if w == "else".to_owned() {
        Token::Else
    } else if w == "func".to_owned() {
        Token::Function
    } else {
        Token::Identifier(w)
    }
}

/// Scans the whole source text into its token sequence, ending in `EOF`.
pub fn lex(input: &str) -> (r: Vec<Token>)
    ensures
        toks_view(r@) == spec_lex(input@),
{
    let chars = str_to_chars(input);
    let ghost s = input@;
    let n = chars.len();
    let mut tokens: Vec<Token> = Vec::new();
    let mut i: usize = 0;
    while i < n
        invariant
            i <= n,
            n == s.len(),
            chars@ == s,
            spec_lex_core(s, 0) == toks_view(tokens@) + spec_lex_core(s, i as int),
        decreases n - i,
    {
        let ghost i0 = i as int;
        let ghost toks0 = tokens@;
        let c = chars[i];
        if char_is_space(c) {
            i = i + 1;
        } else if char_is_alpha(c) || c == '_' {
            proof {
                lemma_ident_end_bounds(s, i0 + 1);
            }
            let (w, j) = collect_identifier(&chars, i);
            tokens.push(classify_word(w));
            i = j;
        } else if is_digit_char(c) {
            proof {
                lemma_number_end_bounds(s, i0 + 1);
            }
            let (bits, j) = collect_number(&chars, i);
            tokens.push(Token::NumberLiteral(bits));
            i = j;
        } else if c == '"' {
            proof {
                lemma_quote_end_bounds(s, i0 + 1);
            }
            let (text, j) = collect_string_literal(&chars, i + 1);
            tokens.push(Token::StringLiteral(text));
            i = j;
        } else if c == '=' {
            if i + 1 < n && chars[i + 1] == '=' {
                tokens.push(Token::EqualEqual);
                i = i + 2;
            } else {
                tokens.push(Token::Assign);
                i = i + 1;
            }
        } else if c == '!' {
            if i + 1 < n && chars[i + 1] == '=' {
                tokens.push(Token::NotEqual);
                i = i + 2;
            } else {
                tokens.push(Token::Bang);
                i = i + 1;
            }
        } else if c == '<' {
            if i + 1 < n && chars[i + 1] == '=' {
                tokens.push(Token::LessEqual);
                i = i + 2;
            } else {
                tokens.push(Token::LessThan);
                i = i + 1;
            }
        } else if c == '>' {
            if i + 1 < n && chars[i + 1] == '=' {
                tokens.push(Token::GreaterEqual);
                i = i + 2;
            } else {
                tokens.push(Token::GreaterThan);
                i = i + 1;
            }
        } else if c == '+' {
            tokens.push(Token::Plus);
            i = i + 1;
        } else if c == '-' {
            tokens.push(Token::Minus);
            i = i + 1;
        } else if c == '*' {
            tokens.push(Token::Star);
            i = i + 1;
        } else if c == '/' {
            tokens.push(Token::Slash);
            i = i + 1;
        } else if c == ',' {
            tokens.push(Token::Comma);
            i = i + 1;
        } else if c == ';' {
            tokens.push(Token::Semicolon);
            i = i + 1;
        } else if c == '(' {
            tokens.push(Token::LeftParen);
            i = i + 1;
        } else if c == ')' {
            tokens.push(Token::RightParen);
            i = i + 1;
        } else if c == '{' {
            tokens.push(Token::LeftBrace);
            i = i + 1;
        } else if c == '}' {
            tokens.push(Token::RightBrace);
            i = i + 1;
        } else {
            i = i + 1;
        }
        proof {
            if tokens@.len() > toks0.len() {
                assert(tokens@ == toks0.push(tokens@.last()));
                assert(toks_view(tokens@) =~= toks_view(toks0).push(tokens@.last()@));
            }
            assert(spec_lex_core(s, 0) =~= toks_view(tokens@) + spec_lex_core(s, i as int));
        }
    }
    let ghost before_end = tokens@;
    tokens.push(Token::EOF);
    proof {
        assert(spec_lex_core(s, n as int) =~= Seq::<TokenModel>::empty());
        assert(toks_view(before_end) =~= spec_lex_core(s, 0));
        assert(toks_view(tokens@) =~= toks_view(before_end).push(TokenModel::EOF));
        assert(toks_view(tokens@) =~= spec_lex(s));
    }
    tokens
}

} // verus!
