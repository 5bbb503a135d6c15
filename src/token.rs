use vstd::prelude::*;

verus! {

/// One lexical unit of the language.
#[derive(Debug, Clone, PartialEq, Eq)]
pub enum Token {
    /// A character that matches no lexical rule.
    Invalid,
    /// Reserved for a boolean literal; no spelling produces it yet.
    Boolean(bool),
    Integer(i32),
    Name(String),
    And,
    Array,
    If,
    Let,
    Not,
    Or,
    Print,
    While,
    Asterisk,
    BraceLeft,
    BraceRight,
    BracketLeft,
    BracketRight,
    Colon,
    Dot,
    EqualSign,
    Minus,
    ParenLeft,
    ParenRight,
    Plus,
    Semicolon,
    Slash,
    Assign,
    Eq,
    Ge,
    Gt,
    Le,
    Lt,
    Ne,
}

/// A failure to scan a lexeme.
#[derive(Debug, Clone, Copy, PartialEq, Eq, Structural)]
pub enum ScanError {
    /// A run of digits whose value does not fit in an `i32`.
    NumericOverflow,
}

/// The keyword table: the reserved word spelled exactly (case included) by `w`, if any.
pub open spec fn keyword_token(w: Seq<char>) -> Option<Token> {
    if w == seq!['a', 'n', 'd'] {
        Some(Token::And)
    } else if w == seq!['a', 'r', 'r', 'a', 'y'] {
        Some(Token::Array)
    } else if w == seq!['i', 'f'] {
        Some(Token::If)
    } else if w == seq!['l', 'e', 't'] {
        Some(Token::Let)
    } else if w == seq!['n', 'o', 't'] {
        Some(Token::Not)
    } else if w == seq!['o', 'r'] {
        Some(Token::Or)
    } else if w == seq!['p', 'r', 'i', 'n', 't'] {
        Some(Token::Print)
    } else if w == seq!['w', 'h', 'i', 'l', 'e'] {
        Some(Token::While)
    } else {
        None
    }
}

/// Whether `w` holds exactly the characters of `spelling`.
fn spelled(w: &Vec<char>, spelling: &[char]) -> (r: bool)
    ensures
        r == (w@ == spelling@),
{
    if w.len() != spelling.len() {
        return false;
    }
    let mut i: usize = 0;
    while i < w.len()
        invariant
            w@.len() == spelling@.len(),
            i <= w@.len(),
            forall|k: int| 0 <= k < i ==> w@[k] == spelling@[k],
        decreases w@.len() - i,
    {
        if w[i] != spelling[i] {
            return false;
        }
        i = i + 1;
    }
    assert(w@ =~= spelling@);
    true
}

/// Looks `w` up in the keyword table.
pub fn keyword(w: &Vec<char>) -> (r: Option<Token>)
    ensures
        r == keyword_token(w@),
{
    let and_word = ['a', 'n', 'd'];
    assert(and_word@ =~= seq!['a', 'n', 'd']);
    if spelled(w, and_word.as_slice()) {
        return Some(Token::And);
    }
    let array_word = ['a', 'r', 'r', 'a', 'y'];
    assert(array_word@ =~= seq!['a', 'r', 'r', 'a', 'y']);
    if spelled(w, array_word.as_slice()) {
        return Some(Token::Array);
    }
    let if_word = ['i', 'f'];
    assert(if_word@ =~= seq!['i', 'f']);
    if spelled(w, if_word.as_slice()) {
        return Some(Token::If);
    }
    let let_word = ['l', 'e', 't'];
    assert(let_word@ =~= seq!['l', 'e', 't']);
    if spelled(w, let_word.as_slice()) {
        return Some(Token::Let);
    }
    let not_word = ['n', 'o', 't'];
    assert(not_word@ =~= seq!['n', 'o', 't']);
    if spelled(w, not_word.as_slice()) {
        return Some(Token::Not);
    }
    let or_word = ['o', 'r'];
    assert(or_word@ =~= seq!['o', 'r']);
    if spelled(w, or_word.as_slice()) {
        return Some(Token::Or);
    }
    let print_word = ['p', 'r', 'i', 'n', 't'];
    assert(print_word@ =~= seq!['p', 'r', 'i', 'n', 't']);
    if spelled(w, print_word.as_slice()) {
        return Some(Token::Print);
    }
    let while_word = ['w', 'h', 'i', 'l', 'e'];
    assert(while_word@ =~= seq!['w', 'h', 'i', 'l', 'e']);
    if spelled(w, while_word.as_slice()) {
        return Some(Token::While);
    }
    None
}

} // verus!
