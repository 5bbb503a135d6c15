use vstd::prelude::*;

use crate::token::{keyword_token, ScanError, Token};

verus! {

/// A class of characters whose maximal runs the scanner consumes.
pub enum CharClass {
    /// Space, tab and newline.
    Space,
    /// `0` to `9`.
    Digit,
    /// Letters, digits and underscore: what may follow the first letter of a name.
    Word,
}

pub open spec fn is_space(c: char) -> bool {
    c == ' ' || c == '\t' || c == '\n'
}

pub open spec fn is_digit(c: char) -> bool {
    '0' <= c <= '9'
}

pub open spec fn is_letter(c: char) -> bool {
    ('a' <= c <= 'z') || ('A' <= c <= 'Z')
}

pub open spec fn in_class(c: char, k: CharClass) -> bool {
    match k {
        CharClass::Space => is_space(c),
        CharClass::Digit => is_digit(c),
        CharClass::Word => is_letter(c) || is_digit(c) || c == '_',
    }
}

/// The end of the maximal run of class `k` that starts at `i`.
pub open spec fn run_end(s: Seq<char>, i: int, k: CharClass) -> int
    decreases s.len() - i,
{
    if 0 <= i < s.len() && in_class(s[i], k) {
        run_end(s, i + 1, k)
    } else {
        i
    }
}

/// The value of a decimal numeral.
pub open spec fn digits_value(d: Seq<char>) -> int
    decreases d.len(),
{
    if d.len() == 0 {
        0
    } else {
        10 * digits_value(d.drop_last()) + (d.last() as int - '0' as int)
    }
}

/// Whether the symbol `c` followed by `d` reads as one two-character symbol.
pub open spec fn extends(c: char, d: char) -> bool {
    ||| (c == ':' || c == '=' || c == '>' || c == '<') && d == '='
    ||| c == '<' && d == '>'
}

/// The symbol spelled by `lex`, one or two characters long.
pub open spec fn symbol_token(lex: Seq<char>) -> Option<Token> {
    if lex.len() == 1 {
        match lex[0] {
            '*' => Some(Token::Asterisk),
            '{' => Some(Token::BraceLeft),
            '}' => Some(Token::BraceRight),
            '[' => Some(Token::BracketLeft),
            ']' => Some(Token::BracketRight),
            ':' => Some(Token::Colon),
            '.' => Some(Token::Dot),
            '=' => Some(Token::EqualSign),
            '-' => Some(Token::Minus),
            '(' => Some(Token::ParenLeft),
            ')' => Some(Token::ParenRight),
            '+' => Some(Token::Plus),
            ';' => Some(Token::Semicolon),
            '/' => Some(Token::Slash),
            '>' => Some(Token::Gt),
            '<' => Some(Token::Lt),
            _ => None,
        }
    } else if lex == seq![':', '='] {
        Some(Token::Assign)
    } else if lex == seq!['=', '='] {
        Some(Token::Eq)
    } else if lex == seq!['>', '='] {
        Some(Token::Ge)
    } else if lex == seq!['<', '='] {
        Some(Token::Le)
    } else if lex == seq!['<', '>'] {
        Some(Token::Ne)
    } else {
        None
    }
}

/// Where the lexeme that starts at `i` ends: a maximal run of digits, a
/// maximal run of word characters after a letter, a two-character symbol,
/// or else the one character.
pub open spec fn lexeme_end(s: Seq<char>, i: int) -> int {
    if is_digit(s[i]) {
        run_end(s, i, CharClass::Digit)
    } else if is_letter(s[i]) {
        run_end(s, i, CharClass::Word)
    } else if i + 1 < s.len() && extends(s[i], s[i + 1]) {
        i + 2
    } else {
        i + 1
    }
}

/// Whether `r` is what scanning the lexeme `lex` gives.
pub open spec fn scanned(lex: Seq<char>, r: Result<Token, ScanError>) -> bool {
    if is_digit(lex[0]) {
        if digits_value(lex) <= i32::MAX {
            r == Ok::<Token, ScanError>(Token::Integer(digits_value(lex) as i32))
        } else {
            r == Err::<Token, ScanError>(ScanError::NumericOverflow)
        }
    } else if is_letter(lex[0]) {
        match keyword_token(lex) {
            Some(t) => r == Ok::<Token, ScanError>(t),
            None => match r {
                Ok(Token::Name(n)) => n@ == lex,
                _ => false,
            },
        }
    } else {
        match symbol_token(lex) {
            Some(t) => r == Ok::<Token, ScanError>(t),
            None => r == Ok::<Token, ScanError>(Token::Invalid),
        }
    }
}

/// A run ends within the text, after its start, at the first character
/// outside its class.
pub proof fn lemma_run_end(s: Seq<char>, i: int, k: CharClass)
    requires
        0 <= i <= s.len(),
    ensures
        i <= run_end(s, i, k) <= s.len(),
        forall|m: int| i <= m < run_end(s, i, k) ==> in_class(#[trigger] s[m], k),
        run_end(s, i, k) < s.len() ==> !in_class(s[run_end(s, i, k)], k),
    decreases s.len() - i,
{
    if i < s.len() && in_class(s[i], k) {
        lemma_run_end(s, i + 1, k);
    }
}

/// Appending a digit never makes a numeral smaller.
pub proof fn lemma_digits_value_grows(d: Seq<char>, c: char)
    requires
        forall|m: int| 0 <= m < d.len() ==> is_digit(#[trigger] d[m]),
        is_digit(c),
    ensures
        digits_value(d.push(c)) == 10 * digits_value(d) + (c as int - '0' as int),
        0 <= digits_value(d) <= digits_value(d.push(c)),
    decreases d.len(),
{
    assert(d.push(c).drop_last() =~= d);
    if d.len() > 0 {
        lemma_digits_value_grows(d.drop_last(), d.last());
        assert(d.drop_last().push(d.last()) =~= d);
    }
}

/// Numbers and names are maximal runs: a lexeme that starts with a digit
/// takes every digit that follows and stops at the first non-digit (so
/// `123abc` splits after `3`), and one that starts with a letter takes every
/// letter, digit and underscore that follows.
pub proof fn lemma_greedy_runs(s: Seq<char>, i: int)
    requires
        0 <= i < s.len(),
        is_digit(s[i]) || is_letter(s[i]),
    ensures
        ({
            let k = if is_digit(s[i]) { CharClass::Digit } else { CharClass::Word };
            let e = lexeme_end(s, i);
            &&& i < e <= s.len()
            &&& forall|m: int| i <= m < e ==> in_class(#[trigger] s[m], k)
            &&& e < s.len() ==> !in_class(s[e], k)
        }),
{
    if is_digit(s[i]) {
        lemma_run_end(s, i, CharClass::Digit);
    } else {
        lemma_run_end(s, i, CharClass::Word);
    }
}

/// Each of `:`, `=`, `>` and `<`, where the next character does not extend
/// it (or the text ends), is a lexeme of one character that scans as the
/// one-character symbol; the next character is left for the next lexeme.
pub proof fn lemma_single_char_symbol(s: Seq<char>, i: int)
    requires
        0 <= i < s.len(),
        s[i] == ':' || s[i] == '=' || s[i] == '>' || s[i] == '<',
        i + 1 == s.len() || !extends(s[i], s[i + 1]),
    ensures
        lexeme_end(s, i) == i + 1,
        s[i] == ':' ==> scanned(s.subrange(i, i + 1), Ok(Token::Colon)),
        s[i] == '=' ==> scanned(s.subrange(i, i + 1), Ok(Token::EqualSign)),
        s[i] == '>' ==> scanned(s.subrange(i, i + 1), Ok(Token::Gt)),
        s[i] == '<' ==> scanned(s.subrange(i, i + 1), Ok(Token::Lt)),
{
}

/// A text of whitespace alone, the empty text included, holds no lexeme:
/// skipping whitespace from any offset reaches its end.
pub proof fn lemma_blank_text_has_no_lexeme(s: Seq<char>, i: int)
    requires
        0 <= i <= s.len(),
        forall|m: int| 0 <= m < s.len() ==> is_space(#[trigger] s[m]),
    ensures
        run_end(s, i, CharClass::Space) == s.len(),
{
    lemma_run_end(s, i, CharClass::Space);
}

} // verus!
