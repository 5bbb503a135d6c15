use vstd::prelude::*;

use crate::lexeme::{
    digits_value, in_class, is_digit, is_letter, is_space, lemma_digits_value_grows, lemma_run_end,
    lexeme_end, run_end, scanned, CharClass,
};
use crate::token::{keyword, ScanError, Token};

verus! {

/// The line (from 1) of offset `i` in `s`: one more than the newlines before it.
pub open spec fn line_at(s: Seq<char>, i: int) -> int
    decreases i,
{
    if i <= 0 {
        1
    } else if s[i - 1] == '\n' {
        line_at(s, i - 1) + 1
    } else {
        line_at(s, i - 1)
    }
}

/// The column (from 0) of offset `i` in `s`: the characters since the last newline before it.
pub open spec fn column_at(s: Seq<char>, i: int) -> int
    decreases i,
{
    if i <= 0 {
        0
    } else if s[i - 1] == '\n' {
        0
    } else {
        column_at(s, i - 1) + 1
    }
}

/// Whether `c` is a space, a tab or a newline.
fn is_blank(c: char) -> (r: bool)
    ensures
        r == is_space(c),
{
    c == ' ' || c == '\t' || c == '\n'
}

/// Whether `c` is a decimal digit.
fn is_decimal(c: char) -> (r: bool)
    ensures
        r == is_digit(c),
{
    '0' <= c && c <= '9'
}

/// Whether `c` is an ASCII letter.
fn is_alpha(c: char) -> (r: bool)
    ensures
        r == is_letter(c),
{
    ('a' <= c && c <= 'z') || ('A' <= c && c <= 'Z')
}

/// Whether `c` may continue a name.
fn is_word(c: char) -> (r: bool)
    ensures
        r == in_class(c, CharClass::Word),
{
    is_alpha(c) || is_decimal(c) || c == '_'
}

/// Relies on `String::push`, which appends one character to the end of the string.
#[verifier::external_body]
fn push_char(s: &mut String, c: char)
    ensures
        final(s)@ == old(s)@.push(c),
{
    s.push(c);
}

proof fn lemma_position_bounds(s: Seq<char>, i: int)
    requires
        0 <= i,
    ensures
        1 <= line_at(s, i) <= i + 1,
        0 <= column_at(s, i) <= i,
    decreases i,
{
    if i > 0 {
        lemma_position_bounds(s, i - 1);
    }
}

/// A forward-only scanner over a text, with one character of lookahead.
pub struct Tokenizer {
    chars: Vec<char>,
    pos: usize,
    line: usize,
    col: usize,
}

impl Tokenizer {
    /// The whole text being scanned.
    pub closed spec fn text(&self) -> Seq<char> {
        self.chars@
    }

    /// The offset of the next character to scan.
    pub closed spec fn offset(&self) -> int {
        self.pos as int
    }

    /// The cursor lies within the text, and the line and column counters
    /// agree with it.
    pub closed spec fn wf(&self) -> bool {
        &&& self.pos <= self.chars@.len() < usize::MAX
        &&& self.line == line_at(self.chars@, self.pos as int)
        &&& self.col == column_at(self.chars@, self.pos as int)
    }

    /// A scanner at the start of `input`. The length bound leaves room for
    /// the line counter, which may reach one more than the length.
    pub fn new(input: &str) -> (t: Tokenizer)
        requires
            input@.len() < usize::MAX,
        ensures
            t.wf(),
            t.text() == input@,
            t.offset() == 0,
    {
        let mut chars: Vec<char> = Vec::new();
        for c in it: input.chars()
            invariant
                chars@ == it.seq().take(it.index() as int),
        {
            chars.push(c);
        }
        assert(chars@ =~= input@);
        Tokenizer { chars, pos: 0, line: 1, col: 0 }
    }

    /// The next character, left unconsumed; `None` at the end of the text.
    pub fn peek_char(&self) -> (r: Option<char>)
        requires
            self.wf(),
        ensures
            r == (if self.offset() < self.text().len() {
                Some(self.text()[self.offset()])
            } else {
                None::<char>
            }),
    {
        if self.pos < self.chars.len() {
            Some(self.chars[self.pos])
        } else {
            None
        }
    }

    /// Consumes and returns the next character; `None`, consuming nothing, at
    /// the end of the text.
    pub fn next_char(&mut self) -> (r: Option<char>)
        requires
            old(self).wf(),
        ensures
            final(self).wf(),
            final(self).text() == old(self).text(),
            old(self).offset() < old(self).text().len() ==> {
                &&& r == Some(old(self).text()[old(self).offset()])
                &&& final(self).offset() == old(self).offset() + 1
            },
            old(self).offset() == old(self).text().len() ==> {
                &&& r is None
                &&& final(self).offset() == old(self).offset()
            },
    {
        if self.pos < self.chars.len() {
            let c = self.chars[self.pos];
            proof {
                lemma_position_bounds(self.chars@, self.pos as int);
            }
            if c == '\n' {
                self.line = self.line + 1;
                self.col = 0;
            } else {
                self.col = self.col + 1;
            }
            self.pos = self.pos + 1;
            Some(c)
        } else {
            None
        }
    }

    /// Consumes the maximal run of spaces, tabs and newlines at the cursor.
    pub fn consume_whitespace(&mut self)
        requires
            old(self).wf(),
        ensures
            final(self).wf(),
            final(self).text() == old(self).text(),
            final(self).offset() == run_end(old(self).text(), old(self).offset(), CharClass::Space),
            forall|m: int|
                old(self).offset() <= m < final(self).offset() ==> is_space(#[trigger] final(self).text()[m]),
            final(self).offset() < final(self).text().len() ==> !is_space(
                final(self).text()[final(self).offset()],
            ),
    {
        proof {
            lemma_run_end(self.text(), self.offset(), CharClass::Space);
        }
        while self.pos < self.chars.len() && is_blank(self.chars[self.pos])
            invariant
                self.wf(),
                self.text() == old(self).text(),
                run_end(self.text(), self.offset(), CharClass::Space) == run_end(
                    old(self).text(),
                    old(self).offset(),
                    CharClass::Space,
                ),
            decreases self.text().len() - self.offset(),
        {
            self.next_char();
        }
    }

    /// Consumes the next character if it is `d`, and says whether it did.
    fn take_if(&mut self, d: char) -> (r: bool)
        requires
            old(self).wf(),
        ensures
            final(self).wf(),
            final(self).text() == old(self).text(),
            r == (old(self).offset() < old(self).text().len() && old(self).text()[old(self).offset()] == d),
            final(self).offset() == old(self).offset() + if r { 1int } else { 0int },
    {
        if self.pos < self.chars.len() && self.chars[self.pos] == d {
            self.next_char();
            true
        } else {
            false
        }
    }

    /// Scans the maximal run of digits at the cursor as an integer.
    fn scan_number(&mut self) -> (r: Result<Token, ScanError>)
        requires
            old(self).wf(),
            old(self).offset() < old(self).text().len(),
            is_digit(old(self).text()[old(self).offset()]),
        ensures
            final(self).wf(),
            final(self).text() == old(self).text(),
            final(self).offset() == run_end(old(self).text(), old(self).offset(), CharClass::Digit),
            scanned(old(self).text().subrange(old(self).offset(), final(self).offset()), r),
    {
        let start = self.pos;
        let mut value: i32 = 0;
        let mut overflow = false;
        while self.pos < self.chars.len() && is_decimal(self.chars[self.pos])
            invariant
                self.wf(),
                self.text() == old(self).text(),
                start < self.text().len(),
                start <= self.offset(),
                is_digit(self.text()[start as int]),
                run_end(self.text(), self.offset(), CharClass::Digit) == run_end(
                    self.text(),
                    start as int,
                    CharClass::Digit,
                ),
                forall|m: int| start <= m < self.offset() ==> is_digit(#[trigger] self.text()[m]),
                !overflow ==> value == digits_value(self.text().subrange(start as int, self.offset())),
                overflow ==> digits_value(self.text().subrange(start as int, self.offset())) > i32::MAX,
            decreases self.text().len() - self.offset(),
        {
            let c = self.chars[self.pos];
            let ghost before = self.text().subrange(start as int, self.offset());
            proof {
                lemma_digits_value_grows(before, c);
                assert(self.text().subrange(start as int, self.offset() + 1) =~= before.push(c));
            }
            if !overflow {
                let grown: i64 = value as i64 * 10 + (c as u32 - '0' as u32) as i64;
                if grown > i32::MAX as i64 {
                    overflow = true;
                } else {
                    value = grown as i32;
                }
            }
            self.next_char();
        }
        proof {
            lemma_run_end(self.text(), self.offset(), CharClass::Digit);
        }
        if overflow {
            Err(ScanError::NumericOverflow)
        } else {
            Ok(Token::Integer(value))
        }
    }

    /// Scans the maximal run of word characters at the cursor as a keyword or a name.
    fn scan_word(&mut self) -> (r: Token)
        requires
            old(self).wf(),
            old(self).offset() < old(self).text().len(),
            is_letter(old(self).text()[old(self).offset()]),
        ensures
            final(self).wf(),
            final(self).text() == old(self).text(),
            final(self).offset() == run_end(old(self).text(), old(self).offset(), CharClass::Word),
            scanned(old(self).text().subrange(old(self).offset(), final(self).offset()), Ok(r)),
    {
        let start = self.pos;
        let mut word: Vec<char> = Vec::new();
        let mut name = String::new();
        while self.pos < self.chars.len() && is_word(self.chars[self.pos])
            invariant
                self.wf(),
                self.text() == old(self).text(),
                start <= self.offset(),
                run_end(self.text(), self.offset(), CharClass::Word) == run_end(
                    self.text(),
                    start as int,
                    CharClass::Word,
                ),
                word@ == self.text().subrange(start as int, self.offset()),
                name@ == word@,
            decreases self.text().len() - self.offset(),
        {
            let c = self.chars[self.pos];
            word.push(c);
            push_char(&mut name, c);
            self.next_char();
            assert(word@ =~= self.text().subrange(start as int, self.offset()));
        }
        proof {
            lemma_run_end(self.text(), self.offset(), CharClass::Word);
        }
        match keyword(&word) {
            Some(k) => k,
            None => Token::Name(name),
        }
    }

    /// Scans the symbol at the cursor, taking a second character where it
    /// extends the first; any other character is invalid.
    fn scan_symbol(&mut self) -> (r: Token)
        requires
            old(self).wf(),
            old(self).offset() < old(self).text().len(),
            !is_digit(old(self).text()[old(self).offset()]),
            !is_letter(old(self).text()[old(self).offset()]),
        ensures
            final(self).wf(),
            final(self).text() == old(self).text(),
            final(self).offset() == lexeme_end(old(self).text(), old(self).offset()),
            scanned(old(self).text().subrange(old(self).offset(), final(self).offset()), Ok(r)),
    {
        let ghost s = self.text();
        let ghost i = self.offset();
        let c = self.chars[self.pos];
        self.next_char();
        let r = match c {
            '*' => Token::Asterisk,
            '{' => Token::BraceLeft,
            '}' => Token::BraceRight,
            '[' => Token::BracketLeft,
            ']' => Token::BracketRight,
            ':' => if self.take_if('=') {
                Token::Assign
            } else {
                Token::Colon
            },
            '.' => Token::Dot,
            '=' => if self.take_if('=') {
                Token::Eq
            } else {
                Token::EqualSign
            },
            '-' => Token::Minus,
            '(' => Token::ParenLeft,
            ')' => Token::ParenRight,
            '+' => Token::Plus,
            ';' => Token::Semicolon,
            '/' => Token::Slash,
            '>' => if self.take_if('=') {
                Token::Ge
            } else {
                Token::Gt
            },
            '<' => if self.take_if('=') {
                Token::Le
            } else if self.take_if('>') {
                Token::Ne
            } else {
                Token::Lt
            },
            _ => Token::Invalid,
        };
        proof {
            let lex = s.subrange(i, self.offset());
            if self.offset() == i + 2 {
                assert(lex =~= seq![s[i], s[i + 1]]);
            }
        }
        r
    }

    /// Skips whitespace and scans the next lexeme; `None` once only whitespace
    /// is left.
    pub fn next(&mut self) -> (r: Option<Result<Token, ScanError>>)
        requires
            old(self).wf(),
        ensures
            final(self).wf(),
            final(self).text() == old(self).text(),
            ({
                let s = old(self).text();
                let j = run_end(s, old(self).offset(), CharClass::Space);
                if j == s.len() {
                    &&& r is None
                    &&& final(self).offset() == j
                } else {
                    &&& r is Some
                    &&& final(self).offset() == lexeme_end(s, j)
                    &&& scanned(s.subrange(j, lexeme_end(s, j)), r->Some_0)
                }
            }),
    {
        self.consume_whitespace();
        proof {
            lemma_run_end(self.text(), old(self).offset(), CharClass::Space);
        }
        if self.pos >= self.chars.len() {
            return None;
        }
        let c = self.chars[self.pos];
        if is_decimal(c) {
            Some(self.scan_number())
        } else if is_alpha(c) {
            Some(Ok(self.scan_word()))
        } else {
            Some(Ok(self.scan_symbol()))
        }
    }

    /// The offset, in characters, of the next character to scan.
    pub fn position(&self) -> (r: usize)
        requires
            self.wf(),
        ensures
            r == self.offset(),
    {
        self.pos
    }

    /// The line, counted from 1, of the next character to scan.
    pub fn line(&self) -> (r: usize)
        requires
            self.wf(),
        ensures
            r == line_at(self.text(), self.offset()),
    {
        self.line
    }

    /// The column, counted from 0 after the last newline, of the next character to scan.
    pub fn column(&self) -> (r: usize)
        requires
            self.wf(),
        ensures
            r == column_at(self.text(), self.offset()),
    {
        self.col
    }
}

} // verus!
