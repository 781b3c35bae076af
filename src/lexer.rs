//! The scanner: a cursor over the input characters that hands out one token
//! per call.
use vstd::prelude::*;

use crate::model::{
    digits_end, digits_value, is_digit_char, is_letter_char, is_space_char, keyword_token,
    lemma_letters_end, lemma_skip_spaces, letters_end, skip_spaces, symbol_token,
    token_end, yields,
};
use crate::token::Token;

verus! {

/// A scanner over one input text. The cursor only moves forward.
pub struct Lexer {
    input: Vec<char>,
    pos: usize,
}

/// Relies on `String::push`: appends one character to the end of the string.
#[verifier::external_body]
fn push_char(s: &mut String, c: char)
    ensures
        final(s)@ == old(s)@.push(c),
{
    s.push(c)
}

impl Lexer {
    /// The characters of the input.
    pub closed spec fn text(&self) -> Seq<char> {
        self.input@
    }

    /// The index of the next character to be scanned.
    pub closed spec fn cursor(&self) -> int {
        self.pos as int
    }

    /// The cursor stands within the input or just past its end.
    pub open spec fn wf(&self) -> bool {
        0 <= self.cursor() <= self.text().len()
    }

    /// A scanner positioned at the first character of `input`.
    pub fn new(input: &str) -> (r: Lexer)
        ensures
            r.wf(),
            r.text() == input@,
            r.cursor() == 0,
    {
        broadcast use vstd::string::group_string_axioms;

        let mut chars: Vec<char> = Vec::new();
        for c in it: input.chars()
            invariant
                chars@ == it.seq().take(it.index() as int),
        {
            chars.push(c);
        }
        assert(chars@ =~= input@);
        Lexer { input: chars, pos: 0 }
    }

    /// Skips the spaces under the cursor, then scans one token and moves the
    /// cursor past it. At the end of the input the end marker comes back, on
    /// every call, and the cursor stays where it is.
    pub fn next_token(&mut self) -> (r: Token)
        requires
            old(self).wf(),
        ensures
            final(self).wf(),
            final(self).text() == old(self).text(),
            yields(old(self).text(), old(self).cursor(), r),
            final(self).cursor() == token_end(old(self).text(), old(self).cursor()),
    {
        proof {
            lemma_skip_spaces(self.text(), self.cursor());
        }
        self.consume_whitespace();
        self._next_token()
    }

    /// Scans one token that starts at the cursor, which stands on no space.
    fn _next_token(&mut self) -> (r: Token)
        requires
            old(self).wf(),
            skip_spaces(old(self).text(), old(self).cursor()) == old(self).cursor(),
        ensures
            final(self).wf(),
            final(self).text() == old(self).text(),
            yields(old(self).text(), old(self).cursor(), r),
            final(self).cursor() == token_end(old(self).text(), old(self).cursor()),
    {
        match self.peek() {
            Some('=') => {
                let _ = self.consume();
                if let Some('=') = self.peek() {
                    let _ = self.consume();
                    Token::EQUALS
                } else {
                    Token::ASSIGN
                }
            },
            Some('!') => {
                let _ = self.consume();
                if let Some('=') = self.peek() {
                    let _ = self.consume();
                    Token::NOTEQUALS
                } else {
                    Token::BANG
                }
            },
            Some(ch) => match symbol(ch) {
                Some(token) => {
                    let _ = self.consume();
                    token
                },
                None => {
                    if is_letter(&ch) {
                        let start = self.pos;
                        proof {
                            lemma_letters_end(self.text(), self.cursor());
                        }
                        let identifier = self.consume_ident();
                        match self.keyword(start, self.pos) {
                            Some(token) => token,
                            None => Token::IDENT(identifier),
                        }
                    } else if is_number(&ch) {
                        match self.consume_int() {
                            Some(value) => Token::INT(value),
                            None => Token::OVERFLOW,
                        }
                    } else {
                        let _ = self.consume();
                        Token::ILLEGAL
                    }
                },
            },
            None => Token::EOF,
        }
    }

    /// The character under the cursor, if any.
    fn peek(&self) -> (r: Option<char>)
        requires
            self.wf(),
        ensures
            r == (if self.cursor() < self.text().len() {
                Some(self.text()[self.cursor()])
            } else {
                None
            }),
    {
        if self.pos < self.input.len() {
            Some(self.input[self.pos])
        } else {
            None
        }
    }

    /// Moves the cursor past the character under it, if any, and returns that
    /// character.
    fn consume(&mut self) -> (r: Option<char>)
        requires
            old(self).wf(),
        ensures
            final(self).wf(),
            final(self).text() == old(self).text(),
            r == (if old(self).cursor() < old(self).text().len() {
                Some(old(self).text()[old(self).cursor()])
            } else {
                None
            }),
            final(self).cursor() == (if old(self).cursor() < old(self).text().len() {
                old(self).cursor() + 1
            } else {
                old(self).cursor()
            }),
    {
        if self.pos < self.input.len() {
            let c = self.input[self.pos];
            self.pos = self.pos + 1;
            Some(c)
        } else {
            None
        }
    }

    /// Moves the cursor past the run of spaces under it.
    fn consume_whitespace(&mut self)
        requires
            old(self).wf(),
        ensures
            final(self).wf(),
            final(self).text() == old(self).text(),
            final(self).cursor() == skip_spaces(old(self).text(), old(self).cursor()),
    {
        while self.pos < self.input.len() && is_whitespace(&self.input[self.pos])
            invariant
                self.wf(),
                self.text() == old(self).text(),
                skip_spaces(self.text(), self.cursor()) == skip_spaces(
                    old(self).text(),
                    old(self).cursor(),
                ),
            decreases self.text().len() - self.cursor(),
        {
            self.pos = self.pos + 1;
        }
    }

    /// Moves the cursor past the run of letters under it and returns that run.
    fn consume_ident(&mut self) -> (r: String)
        requires
            old(self).wf(),
        ensures
            final(self).wf(),
            final(self).text() == old(self).text(),
            final(self).cursor() == letters_end(old(self).text(), old(self).cursor()),
            r@ == old(self).text().subrange(old(self).cursor(), final(self).cursor()),
    {
        let mut identifier = String::new();
        while self.pos < self.input.len() && is_letter(&self.input[self.pos])
            invariant
                self.wf(),
                self.text() == old(self).text(),
                old(self).cursor() <= self.cursor(),
                letters_end(self.text(), self.cursor()) == letters_end(
                    old(self).text(),
                    old(self).cursor(),
                ),
                identifier@ == self.text().subrange(old(self).cursor(), self.cursor()),
            decreases self.text().len() - self.cursor(),
        {
            push_char(&mut identifier, self.input[self.pos]);
            self.pos = self.pos + 1;
            assert(identifier@ =~= self.text().subrange(old(self).cursor(), self.cursor()));
        }
        identifier
    }

    /// Moves the cursor past the run of digits under it and returns its value,
    /// or `None` where the value does not fit in a `u32`.
    fn consume_int(&mut self) -> (r: Option<u32>)
        requires
            old(self).wf(),
        ensures
            final(self).wf(),
            final(self).text() == old(self).text(),
            final(self).cursor() == digits_end(old(self).text(), old(self).cursor()),
            ({
                let v = digits_value(
                    old(self).text().subrange(old(self).cursor(), final(self).cursor()),
                );
                r == (if v <= u32::MAX {
                    Some(v as u32)
                } else {
                    None::<u32>
                })
            }),
    {
        let mut value: u32 = 0;
        let mut overflow = false;
        while self.pos < self.input.len() && is_number(&self.input[self.pos])
            invariant
                self.wf(),
                self.text() == old(self).text(),
                old(self).cursor() <= self.cursor(),
                digits_end(self.text(), self.cursor()) == digits_end(
                    old(self).text(),
                    old(self).cursor(),
                ),
                !overflow ==> value == digits_value(
                    self.text().subrange(old(self).cursor(), self.cursor()),
                ),
                overflow ==> digits_value(self.text().subrange(old(self).cursor(), self.cursor()))
                    > u32::MAX,
            decreases self.text().len() - self.cursor(),
        {
            let ghost before = self.text().subrange(old(self).cursor(), self.cursor());
            let d = self.input[self.pos];
            let digit = (d as u32) - ('0' as u32);
            if !overflow {
                if value < 429496729 || (value == 429496729 && digit <= 5) {
                    value = value * 10 + digit;
                } else {
                    overflow = true;
                }
            }
            self.pos = self.pos + 1;
            assert(self.text().subrange(old(self).cursor(), self.cursor()).drop_last()
                =~= before);
        }
        if overflow {
            None
        } else {
            Some(value)
        }
    }

    /// The keyword token spelled by the input between `start` and `end`, if any.
    fn keyword(&self, start: usize, end: usize) -> (r: Option<Token>)
        requires
            self.wf(),
            start <= end <= self.text().len(),
        ensures
            r == keyword_token(self.text().subrange(start as int, end as int)),
    {
        let ghost w = self.text().subrange(start as int, end as int);
        proof {
            let (kl, kf, kt, kx) = (
                seq!['l', 'e', 't'],
                seq!['f', 'n'],
                seq!['t', 'r', 'u', 'e'],
                seq!['f', 'a', 'l', 's', 'e'],
            );
            assert(kl.len() == 3 && kl[0] == 'l' && kl[1] == 'e' && kl[2] == 't');
            assert(kf.len() == 2 && kf[0] == 'f' && kf[1] == 'n');
            assert(kt.len() == 4 && kt[0] == 't' && kt[1] == 'r' && kt[2] == 'u' && kt[3] == 'e');
            assert(kx.len() == 5 && kx[0] == 'f' && kx[1] == 'a' && kx[2] == 'l' && kx[3] == 's'
                && kx[4] == 'e');
        }
        let s = &self.input;
        let n = end - start;
        if n == 3 && s[start] == 'l' && s[start + 1] == 'e' && s[start + 2] == 't' {
            assert(w =~= seq!['l', 'e', 't']);
            Some(Token::LET)
        } else if n == 2 && s[start] == 'f' && s[start + 1] == 'n' {
            assert(w =~= seq!['f', 'n']);
            Some(Token::FUNCTION)
        } else if n == 4 && s[start] == 't' && s[start + 1] == 'r' && s[start + 2] == 'u'
            && s[start + 3] == 'e' {
            assert(w =~= seq!['t', 'r', 'u', 'e']);
            Some(Token::TRUE)
        } else if n == 5 && s[start] == 'f' && s[start + 1] == 'a' && s[start + 2] == 'l'
            && s[start + 3] == 's' && s[start + 4] == 'e' {
            assert(w =~= seq!['f', 'a', 'l', 's', 'e']);
            Some(Token::FALSE)
        } else {
            None
        }
    }
}

/// The fixed token of a one-character symbol other than `=` and `!`.
fn symbol(ch: char) -> (r: Option<Token>)
    ensures
        r == symbol_token(ch),
{
    match ch {
        '+' => Some(Token::PLUS),
        '-' => Some(Token::MINUS),
        '*' => Some(Token::ASTERISK),
        '/' => Some(Token::SLASH),
        '<' => Some(Token::LT),
        '>' => Some(Token::GT),
        ',' => Some(Token::COMA),
        ';' => Some(Token::SEMICOLON),
        '(' => Some(Token::LPAREN),
        ')' => Some(Token::RPAREN),
        '{' => Some(Token::LBRACE),
        '}' => Some(Token::RBRACE),
        _ => None,
    }
}

fn is_letter(ch: &char) -> (r: bool)
    ensures
        r == is_letter_char(*ch),
{
    ('a' <= *ch && *ch <= 'z') || ('A' <= *ch && *ch <= 'Z') || *ch == '_'
}

fn is_number(ch: &char) -> (r: bool)
    ensures
        r == is_digit_char(*ch),
{
    '0' <= *ch && *ch <= '9'
}

fn is_whitespace(ch: &char) -> (r: bool)
    ensures
        r == is_space_char(*ch),
{
    *ch == ' ' || *ch == '\t' || *ch == '\n' || *ch == '\r'
}

} // verus!
