//! The scanning rules as mathematical functions over a sequence of characters.
use vstd::prelude::*;

use crate::token::Token;

verus! {

/// An ASCII letter or an underscore: a character that may stand in an identifier.
pub open spec fn is_letter_char(c: char) -> bool {
    ('a' <= c && c <= 'z') || ('A' <= c && c <= 'Z') || c == '_'
}

/// An ASCII decimal digit.
pub open spec fn is_digit_char(c: char) -> bool {
    '0' <= c && c <= '9'
}

/// A character skipped between tokens: space, tab, newline or carriage return.
pub open spec fn is_space_char(c: char) -> bool {
    c == ' ' || c == '\t' || c == '\n' || c == '\r'
}

/// The numeric value of a digit character.
pub open spec fn digit_value(c: char) -> nat {
    (c as int - '0' as int) as nat
}

/// The value of a run of decimal digits, most significant first.
pub open spec fn digits_value(d: Seq<char>) -> nat
    decreases d.len(),
{
    if d.len() == 0 {
        0
    } else {
        digits_value(d.drop_last()) * 10 + digit_value(d.last())
    }
}

/// Index of the first character at or after `i` that is not a space.
pub open spec fn skip_spaces(s: Seq<char>, i: int) -> int
    decreases s.len() - i,
{
    if 0 <= i < s.len() && is_space_char(s[i]) {
        skip_spaces(s, i + 1)
    } else {
        i
    }
}

/// End of the maximal run of letters that starts at `i`.
pub open spec fn letters_end(s: Seq<char>, i: int) -> int
    decreases s.len() - i,
{
    if 0 <= i < s.len() && is_letter_char(s[i]) {
        letters_end(s, i + 1)
    } else {
        i
    }
}

/// End of the maximal run of digits that starts at `i`.
pub open spec fn digits_end(s: Seq<char>, i: int) -> int
    decreases s.len() - i,
{
    if 0 <= i < s.len() && is_digit_char(s[i]) {
        digits_end(s, i + 1)
    } else {
        i
    }
}

/// The fixed token of a one-character symbol other than `=` and `!`.
pub open spec fn symbol_token(c: char) -> Option<Token> {
    if c == '+' {
        Some(Token::PLUS)
    } else if c == '-' {
        Some(Token::MINUS)
    } else if c == '*' {
        Some(Token::ASTERISK)
    } else if c == '/' {
        Some(Token::SLASH)
    } else if c == '<' {
        Some(Token::LT)
    } else if c == '>' {
        Some(Token::GT)
    } else if c == ',' {
        Some(Token::COMA)
    } else if c == ';' {
        Some(Token::SEMICOLON)
    } else if c == '(' {
        Some(Token::LPAREN)
    } else if c == ')' {
        Some(Token::RPAREN)
    } else if c == '{' {
        Some(Token::LBRACE)
    } else if c == '}' {
        Some(Token::RBRACE)
    } else {
        None
    }
}

/// The keyword token spelled by `w`, if `w` is a reserved word.
pub open spec fn keyword_token(w: Seq<char>) -> Option<Token> {
    if w == seq!['l', 'e', 't'] {
        Some(Token::LET)
    } else if w == seq!['f', 'n'] {
        Some(Token::FUNCTION)
    } else if w == seq!['t', 'r', 'u', 'e'] {
        Some(Token::TRUE)
    } else if w == seq!['f', 'a', 'l', 's', 'e'] {
        Some(Token::FALSE)
    } else {
        None
    }
}

/// Whether `t` is the token that scanning `s` from index `i` produces.
/// Identifiers are told apart by their text alone.
pub open spec fn yields(s: Seq<char>, i: int, t: Token) -> bool {
    let j = skip_spaces(s, i);
    if j >= s.len() {
        t == Token::EOF
    } else {
        let c = s[j];
        if c == '=' {
            if j + 1 < s.len() && s[j + 1] == '=' {
                t == Token::EQUALS
            } else {
                t == Token::ASSIGN
            }
        } else if c == '!' {
            if j + 1 < s.len() && s[j + 1] == '=' {
                t == Token::NOTEQUALS
            } else {
                t == Token::BANG
            }
        } else if symbol_token(c) is Some {
            t == symbol_token(c)->0
        } else if is_letter_char(c) {
            let w = s.subrange(j, letters_end(s, j));
            match keyword_token(w) {
                Some(k) => t == k,
                None => t matches Token::IDENT(name) && name@ == w,
            }
        } else if is_digit_char(c) {
            let v = digits_value(s.subrange(j, digits_end(s, j)));
            if v <= u32::MAX {
                t == Token::INT(v as u32)
            } else {
                t == Token::OVERFLOW
            }
        } else {
            t == Token::ILLEGAL
        }
    }
}

/// The index just past the token that scanning `s` from index `i` produces.
/// At the end of the input nothing is consumed beyond the spaces.
pub open spec fn token_end(s: Seq<char>, i: int) -> int {
    let j = skip_spaces(s, i);
    if j >= s.len() {
        j
    } else {
        let c = s[j];
        if (c == '=' || c == '!') && j + 1 < s.len() && s[j + 1] == '=' {
            j + 2
        } else if is_letter_char(c) {
            letters_end(s, j)
        } else if is_digit_char(c) {
            digits_end(s, j)
        } else {
            j + 1
        }
    }
}

/// `skip_spaces` stops within the input, at a character that is no space,
/// and everything it passes over is a space.
pub proof fn lemma_skip_spaces(s: Seq<char>, i: int)
    requires
        0 <= i <= s.len(),
    ensures
        i <= skip_spaces(s, i) <= s.len(),
        skip_spaces(s, i) < s.len() ==> !is_space_char(s[skip_spaces(s, i)]),
        forall|k: int| i <= k < skip_spaces(s, i) ==> is_space_char(#[trigger] s[k]),
        skip_spaces(s, skip_spaces(s, i)) == skip_spaces(s, i),
    decreases s.len() - i,
{
    if i < s.len() && is_space_char(s[i]) {
        lemma_skip_spaces(s, i + 1);
    }
}

/// `letters_end` stops within the input, at a character that is no letter,
/// and everything it passes over is a letter.
pub proof fn lemma_letters_end(s: Seq<char>, i: int)
    requires
        0 <= i <= s.len(),
    ensures
        i <= letters_end(s, i) <= s.len(),
        letters_end(s, i) < s.len() ==> !is_letter_char(s[letters_end(s, i)]),
        forall|k: int| i <= k < letters_end(s, i) ==> is_letter_char(#[trigger] s[k]),
    decreases s.len() - i,
{
    if i < s.len() && is_letter_char(s[i]) {
        lemma_letters_end(s, i + 1);
    }
}

/// `digits_end` stops within the input, at a character that is no digit,
/// and everything it passes over is a digit.
pub proof fn lemma_digits_end(s: Seq<char>, i: int)
    requires
        0 <= i <= s.len(),
    ensures
        i <= digits_end(s, i) <= s.len(),
        digits_end(s, i) < s.len() ==> !is_digit_char(s[digits_end(s, i)]),
        forall|k: int| i <= k < digits_end(s, i) ==> is_digit_char(#[trigger] s[k]),
    decreases s.len() - i,
{
    if i < s.len() && is_digit_char(s[i]) {
        lemma_digits_end(s, i + 1);
    }
}

} // verus!
