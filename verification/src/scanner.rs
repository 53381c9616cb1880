//! The scanner: source text to tokens.
//!
//! A mechanical transformation, kept separate from the evaluator's stated
//! semantics. The scanner never panics: malformed input (an unexpected
//! character, a lone `!`, a numeric literal too large for a number value)
//! is reported as an error.

use vstd::prelude::*;

use vstd::string::StrSliceExecFns;

verus! {

pub enum Token {
    Assign,
    Eq,
    Ne,
    Greater,
    GreaterEqual,
    Less,
    LessEqual,
    Plus,
    Minus,
    Star,
    Dot,
    Colon,
    Comma,
    Semicolon,
    OpenParen,
    CloseParen,
    OpenBracket,
    CloseBracket,
    OpenBrace,
    CloseBrace,
    Number(i32),
    String(String),
    Identifier(String),
    Var,
    Print,
    Fun,
    Return,
    While,
    For,
    If,
    Else,
    True,
    False,
}

/// Relies on `String::push`: appends the character at the end of the
/// string.
#[verifier::external_body]
fn push_char(s: &mut String, c: char)
    ensures
        final(s)@ == old(s)@.push(c),
{
    s.push(c)
}

/// The characters of `source`, in order.
fn str_chars(source: &str) -> (r: Vec<char>)
    ensures
        r@ == source@,
{
    let n = source.unicode_len();
    let mut chars: Vec<char> = Vec::new();
    let mut i: usize = 0;
    while i < n
        invariant
            i <= n,
            n == source@.len(),
            chars@ =~= source@.take(i as int),
        decreases n - i,
    {
        chars.push(source.get_char(i));
        i = i + 1;
    }
    proof {
        assert(source@.take(n as int) =~= source@);
    }
    chars
}

fn is_alpha(c: char) -> (r: bool)
    ensures
        r == (('a' <= c && c <= 'z') || ('A' <= c && c <= 'Z')),
{
    ('a' <= c && c <= 'z') || ('A' <= c && c <= 'Z')
}

fn is_digit(c: char) -> (r: bool)
    ensures
        r == ('0' <= c && c <= '9'),
{
    '0' <= c && c <= '9'
}

fn is_name_char(c: char) -> (r: bool)
    ensures
        r == (('a' <= c && c <= 'z') || ('A' <= c && c <= 'Z') || c == '_'),
{
    ('a' <= c && c <= 'z') || ('A' <= c && c <= 'Z') || c == '_'
}

fn is_keyword(name: &String, kw: &str) -> (r: bool)
    ensures
        r == (name@ == kw@),
{
    name.eq(&kw.to_owned())
}

/// The token a single character scans to, where one exists.
pub open spec fn spec_single_token(ch: char) -> Option<Token> {
    match ch {
        '+' => Some(Token::Plus),
        '*' => Some(Token::Star),
        '-' => Some(Token::Minus),
        '(' => Some(Token::OpenParen),
        ')' => Some(Token::CloseParen),
        '[' => Some(Token::OpenBracket),
        ']' => Some(Token::CloseBracket),
        '{' => Some(Token::OpenBrace),
        '}' => Some(Token::CloseBrace),
        '.' => Some(Token::Dot),
        ':' => Some(Token::Colon),
        ',' => Some(Token::Comma),
        ';' => Some(Token::Semicolon),
        _ => None,
    }
}

/// The token a single character scans to, where one exists.
pub fn single_token(ch: char) -> (t: Option<Token>)
    ensures
        t == spec_single_token(ch),
{
    match ch {
        '+' => Some(Token::Plus),
        '*' => Some(Token::Star),
        '-' => Some(Token::Minus),
        '(' => Some(Token::OpenParen),
        ')' => Some(Token::CloseParen),
        '[' => Some(Token::OpenBracket),
        ']' => Some(Token::CloseBracket),
        '{' => Some(Token::OpenBrace),
        '}' => Some(Token::CloseBrace),
        '.' => Some(Token::Dot),
        ':' => Some(Token::Colon),
        ',' => Some(Token::Comma),
        ';' => Some(Token::Semicolon),
        _ => None,
    }
}

/// Scans source text into tokens. Identifiers start with a letter and
/// continue with letters and underscores; numbers are unsigned decimal
/// runs; a string literal runs between double quotes; `! = > <` pair with
/// a following `=`; spaces and newlines separate tokens. Any other
/// character, a `!` without `=`, or a numeric literal that does not fit a
/// 32-bit number is an error.
pub fn scan(source: &str) -> (r: Result<Vec<Token>, String>)
    ensures
        source@.len() == 0 ==> (r matches Ok(v) && v@.len() == 0),
        r matches Ok(v) ==> v@.len() <= source@.len(),
{
    let chars = str_chars(source);
    let n = chars.len();
    let mut tokens: Vec<Token> = Vec::new();
    let mut i: usize = 0;
    while i < n
        invariant
            i <= n,
            n == chars.len(),
            n == source@.len(),
            tokens@.len() <= i,
        decreases n - i,
    {
        let c = chars[i];
        i = i + 1;
        match single_token(c) {
            Some(t) => {
                tokens.push(t);
                continue ;
            },
            None => {},
        }
        if is_alpha(c) {
            let mut name = String::new();
            push_char(&mut name, c);
            let ghost i0 = i;
            while i < n && is_name_char(chars[i])
                invariant
                    i0 <= i,
                    i <= n,
                    n == chars.len(),
                decreases n - i,
            {
                push_char(&mut name, chars[i]);
                i = i + 1;
            }
            tokens.push(
                if is_keyword(&name, "var") {
                    Token::Var
                } else if is_keyword(&name, "print") {
                    Token::Print
                } else if is_keyword(&name, "fun") {
                    Token::Fun
                } else if is_keyword(&name, "return") {
                    Token::Return
                } else if is_keyword(&name, "while") {
                    Token::While
                } else if is_keyword(&name, "for") {
                    Token::For
                } else if is_keyword(&name, "if") {
                    Token::If
                } else if is_keyword(&name, "else") {
                    Token::Else
                } else if is_keyword(&name, "true") {
                    Token::True
                } else if is_keyword(&name, "false") {
                    Token::False
                } else {
                    Token::Identifier(name)
                },
            );
        } else if is_digit(c) {
            let mut value: i32 = (c as u32 as i32) - ('0' as u32 as i32);
            let mut ok = true;
            let ghost i0 = i;
            while i < n && is_digit(chars[i])
                invariant
                    i0 <= i,
                    i <= n,
                    n == chars.len(),
                decreases n - i,
            {
                let d = (chars[i] as u32 as i32) - ('0' as u32 as i32);
                match value.checked_mul(10) {
                    Some(v10) => match v10.checked_add(d) {
                        Some(v) => {
                            value = v;
                        },
                        None => {
                            ok = false;
                        },
                    },
                    None => {
                        ok = false;
                    },
                }
                i = i + 1;
            }
            if !ok {
                return Err("number literal does not fit a 32-bit number".to_owned());
            }
            tokens.push(Token::Number(value));
        } else if c == '"' {
            let mut text = String::new();
            let ghost i0 = i;
            while i < n && chars[i] != '"'
                invariant
                    i0 <= i,
                    i <= n,
                    n == chars.len(),
                decreases n - i,
            {
                push_char(&mut text, chars[i]);
                i = i + 1;
            }
            if i < n {
                // consume the closing quote
                i = i + 1;
            }
            tokens.push(Token::String(text));
        } else if c == '!' {
            if i < n && chars[i] == '=' {
                i = i + 1;
                tokens.push(Token::Ne);
            } else {
                return Err("expected = after !".to_owned());
            }
        } else if c == '=' {
            if i < n && chars[i] == '=' {
                i = i + 1;
                tokens.push(Token::Eq);
            } else {
                tokens.push(Token::Assign);
            }
        } else if c == '>' {
            if i < n && chars[i] == '=' {
                i = i + 1;
                tokens.push(Token::GreaterEqual);
            } else {
                tokens.push(Token::Greater);
            }
        } else if c == '<' {
            if i < n && chars[i] == '=' {
                i = i + 1;
                tokens.push(Token::LessEqual);
            } else {
                tokens.push(Token::Less);
            }
        } else if c == ' ' || c == '\n' {
            // whitespace separates tokens and is otherwise ignored
        } else {
            return Err("unexpected character".to_owned());
        }
    }
    Ok(tokens)
}

} // verus!
