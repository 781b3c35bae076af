//! General facts about scanning, stated over the rules in `model` and proved.
use vstd::prelude::*;

use crate::model::{
    digits_end, digits_value, is_digit_char, is_letter_char, is_space_char, keyword_token,
    lemma_digits_end, lemma_letters_end, lemma_skip_spaces, letters_end, skip_spaces, token_end,
    yields,
};
use crate::token::Token;

verus! {

/// A maximal run of letters from `i` to `e` ends where `letters_end` says.
proof fn lemma_letters_run(s: Seq<char>, i: int, e: int)
    requires
        0 <= i <= e <= s.len(),
        forall|k: int| i <= k < e ==> is_letter_char(#[trigger] s[k]),
        e == s.len() || !is_letter_char(s[e]),
    ensures
        letters_end(s, i) == e,
    decreases e - i,
{
    if i < e {
        lemma_letters_run(s, i + 1, e);
    }
}

/// A maximal run of digits from `i` to `e` ends where `digits_end` says.
proof fn lemma_digits_run(s: Seq<char>, i: int, e: int)
    requires
        0 <= i <= e <= s.len(),
        forall|k: int| i <= k < e ==> is_digit_char(#[trigger] s[k]),
        e == s.len() || !is_digit_char(s[e]),
    ensures
        digits_end(s, i) == e,
    decreases e - i,
{
    if i < e {
        lemma_digits_run(s, i + 1, e);
    }
}

/// From inside a run of spaces, `skip_spaces` reaches the same index.
proof fn lemma_skip_from_inside(s: Seq<char>, i: int, k: int)
    requires
        0 <= i <= k <= skip_spaces(s, i),
    ensures
        skip_spaces(s, k) == skip_spaces(s, i),
    decreases k - i,
{
    if i < k {
        lemma_skip_from_inside(s, i + 1, k);
    }
}

/// The end marker is a sticky state: once scanning from `i` yields it, the
/// scan ends at the end of the input, and every scan from there yields the end
/// marker again without moving.
pub proof fn end_marker_is_sticky(s: Seq<char>, i: int, t: Token)
    requires
        0 <= i <= s.len(),
        yields(s, i, Token::EOF),
    ensures
        token_end(s, i) == s.len(),
        token_end(s, s.len() as int) == s.len(),
        yields(s, s.len() as int, t) <==> t == Token::EOF,
{
    lemma_skip_spaces(s, i);
    let j = skip_spaces(s, i);
    if j < s.len() {
        let c = s[j];
        if is_letter_char(c) {
            let w = s.subrange(j, letters_end(s, j));
            if keyword_token(w) is Some {
                assert(keyword_token(w)->0 != Token::EOF);
            }
        }
        assert(!yields(s, i, Token::EOF));
    }
}

/// An identifier that is no keyword comes back as an identifier token that
/// carries exactly its text, and the scan consumes exactly that text.
pub proof fn identifier_is_scanned_whole(s: Seq<char>, i: int, e: int, t: Token)
    requires
        0 <= i < e <= s.len(),
        forall|k: int| i <= k < e ==> is_letter_char(#[trigger] s[k]),
        e == s.len() || !is_letter_char(s[e]),
        keyword_token(s.subrange(i, e)) is None,
        yields(s, i, t),
    ensures
        t matches Token::IDENT(name) && name@ == s.subrange(i, e),
        token_end(s, i) == e,
{
    assert(is_letter_char(s[i]));
    lemma_letters_run(s, i, e);
}

/// A run of digits whose value fits in a `u32` comes back as an integer token
/// with that value, and the scan consumes exactly the run.
pub proof fn integer_is_scanned_whole(s: Seq<char>, i: int, e: int, t: Token)
    requires
        0 <= i < e <= s.len(),
        forall|k: int| i <= k < e ==> is_digit_char(#[trigger] s[k]),
        e == s.len() || !is_digit_char(s[e]),
        digits_value(s.subrange(i, e)) <= u32::MAX,
        yields(s, i, t),
    ensures
        t == Token::INT(digits_value(s.subrange(i, e)) as u32),
        token_end(s, i) == e,
{
    assert(is_digit_char(s[i]));
    lemma_digits_run(s, i, e);
}

/// A word is scanned by maximal munch: the consumed text is a run of letters
/// that no letter follows, so no longer identifier or keyword starts there.
pub proof fn words_are_maximal(s: Seq<char>, i: int)
    requires
        0 <= i <= s.len(),
        skip_spaces(s, i) < s.len(),
        is_letter_char(s[skip_spaces(s, i)]),
    ensures
        token_end(s, i) == s.len() || !is_letter_char(s[token_end(s, i)]),
        forall|k: int| skip_spaces(s, i) <= k < token_end(s, i) ==> is_letter_char(#[trigger] s[k]),
{
    lemma_skip_spaces(s, i);
    lemma_letters_end(s, skip_spaces(s, i));
}

/// `==` is one equality token and `!=` one inequality token: both characters
/// are consumed together.
pub proof fn two_char_operators_win(s: Seq<char>, i: int, t: Token)
    requires
        0 <= i <= s.len(),
        skip_spaces(s, i) + 1 < s.len(),
        s[skip_spaces(s, i) + 1] == '=',
        yields(s, i, t),
    ensures
        s[skip_spaces(s, i)] == '=' ==> t == Token::EQUALS,
        s[skip_spaces(s, i)] == '!' ==> t == Token::NOTEQUALS,
        s[skip_spaces(s, i)] == '=' || s[skip_spaces(s, i)] == '!' ==> token_end(s, i)
            == skip_spaces(s, i) + 2,
{
}

/// Spaces are skipped, never scanned into a token: everything before the
/// token is a space, nothing in the token is, and a scan that starts anywhere
/// in the run of spaces yields the same token and ends at the same place.
pub proof fn spaces_are_skipped(s: Seq<char>, i: int, k: int, t: Token)
    requires
        0 <= i <= k <= skip_spaces(s, i),
        i <= s.len(),
    ensures
        forall|m: int| i <= m < skip_spaces(s, i) ==> is_space_char(#[trigger] s[m]),
        forall|m: int| skip_spaces(s, i) <= m < token_end(s, i) ==> !is_space_char(#[trigger] s[m]),
        yields(s, k, t) == yields(s, i, t),
        token_end(s, k) == token_end(s, i),
{
    lemma_skip_spaces(s, i);
    lemma_skip_from_inside(s, i, k);
    let j = skip_spaces(s, i);
    if j < s.len() {
        lemma_letters_end(s, j);
        lemma_digits_end(s, j);
    }
}

} // verus!
