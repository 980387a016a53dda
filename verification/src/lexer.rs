//! The scanner: a pull-based lexer that yields one token per call.
//!
//! The executable `Lexer` is pinned, call by call, to a mathematical scanner
//! over `Seq<char>`: `spec_next_token` says which token starts at a given
//! position and where the next one begins. Scanning is maximal-munch, skips
//! only whitespace, never fails (unrecognized characters become `Illegal`
//! tokens), and keeps returning `Eof` once the end of the text is reached.
//!
//! Two deliberate choices close gaps a byte-oriented scanner would leave
//! open. First, the scanner positions are character indices, never byte
//! offsets, so a character outside ASCII is one unrecognized character — one
//! `Illegal` token — rather than several, and lexeme boundaries always fall
//! on character boundaries. Second, end of input is a matter of position
//! alone: the NUL value in `current` is only a sentinel for "no character
//! available", and a literal NUL character inside the text lexes as
//! `Illegal` like any other unrecognized character.

use vstd::prelude::*;

use crate::token::Token;
use crate::token::TokenView;

verus! {

/// The whitespace characters the scanner silently discards between tokens.
pub open spec fn spec_is_whitespace(c: char) -> bool {
    c == ' ' || c == '\t' || c == '\n' || c == '\r'
}

/// Characters that may appear in an identifier: ASCII letters and underscore.
pub open spec fn spec_is_letter(c: char) -> bool {
    ('a' <= c && c <= 'z') || ('A' <= c && c <= 'Z') || c == '_'
}

/// Decimal digit characters.
pub open spec fn spec_is_digit(c: char) -> bool {
    '0' <= c && c <= '9'
}

/// Test whether the character is an ASCII letter or the '_' character.
pub fn is_letter(symbol: char) -> (b: bool)
    ensures
        b == spec_is_letter(symbol),
{
    ('a' <= symbol && symbol <= 'z') || ('A' <= symbol && symbol <= 'Z') || symbol == '_'
}

/// Test whether the character is a decimal digit.
pub fn is_digit(symbol: char) -> (b: bool)
    ensures
        b == spec_is_digit(symbol),
{
    '0' <= symbol && symbol <= '9'
}

/// The first position at or after `i` holding a non-whitespace character
/// (or the end of the text).
pub open spec fn skip_ws_from(s: Seq<char>, i: int) -> int
    decreases s.len() - i,
{
    if 0 <= i < s.len() && spec_is_whitespace(s[i]) {
        skip_ws_from(s, i + 1)
    } else {
        i
    }
}

/// The end of the maximal run of letter characters starting at `i`.
pub open spec fn letter_run_end(s: Seq<char>, i: int) -> int
    decreases s.len() - i,
{
    if 0 <= i < s.len() && spec_is_letter(s[i]) {
        letter_run_end(s, i + 1)
    } else {
        i
    }
}

/// The end of the maximal run of digit characters starting at `i`.
pub open spec fn digit_run_end(s: Seq<char>, i: int) -> int
    decreases s.len() - i,
{
    if 0 <= i < s.len() && spec_is_digit(s[i]) {
        digit_run_end(s, i + 1)
    } else {
        i
    }
}

/// The character at position `i`, or the NUL sentinel when `i` is outside
/// the text. Models the scanner's "no character available" convention.
pub open spec fn char_at_or_nul(s: Seq<char>, i: int) -> char {
    if 0 <= i < s.len() {
        s[i]
    } else {
        '\0'
    }
}

/// The token an identifier-shaped word denotes: the matching keyword where
/// the whole word equals one, an identifier carrying the word otherwise.
pub open spec fn spec_lookup_ident(w: Seq<char>) -> TokenView {
    if w == "fn"@ {
        TokenView::Function
    } else if w == "let"@ {
        TokenView::Let
    } else if w == "return"@ {
        TokenView::Return
    } else if w == "if"@ {
        TokenView::If
    } else if w == "else"@ {
        TokenView::Else
    } else if w == "true"@ {
        TokenView::True
    } else if w == "false"@ {
        TokenView::False
    } else {
        TokenView::Ident(w)
    }
}

/// The token starting exactly at position `i` (no whitespace skipping), and
/// the position just past its lexeme. At or past the end of the text the
/// token is `Eof` and the position does not move.
pub open spec fn scan_at(s: Seq<char>, i: int) -> (TokenView, int) {
    if !(0 <= i < s.len()) {
        (TokenView::Eof, i)
    } else {
        let c = s[i];
        if c == '=' {
            if i + 1 < s.len() && s[i + 1] == '=' {
                (TokenView::Eq, i + 2)
            } else {
                (TokenView::Assign, i + 1)
            }
        } else if c == '+' {
            (TokenView::Plus, i + 1)
        } else if c == '(' {
            (TokenView::LParen, i + 1)
        } else if c == ')' {
            (TokenView::RParen, i + 1)
        } else if c == '{' {
            (TokenView::LBrace, i + 1)
        } else if c == '}' {
            (TokenView::RBrace, i + 1)
        } else if c == ',' {
            (TokenView::Comma, i + 1)
        } else if c == ';' {
            (TokenView::Semicolon, i + 1)
        } else if c == '!' {
            if i + 1 < s.len() && s[i + 1] == '=' {
                (TokenView::Neq, i + 2)
            } else {
                (TokenView::Bang, i + 1)
            }
        } else if c == '-' {
            (TokenView::Minus, i + 1)
        } else if c == '/' {
            (TokenView::Slash, i + 1)
        } else if c == '*' {
            (TokenView::Asterisk, i + 1)
        } else if c == '<' {
            (TokenView::Lt, i + 1)
        } else if c == '>' {
            (TokenView::Gt, i + 1)
        } else if spec_is_letter(c) {
            (spec_lookup_ident(s.subrange(i, letter_run_end(s, i))), letter_run_end(s, i))
        } else if spec_is_digit(c) {
            (TokenView::Int(s.subrange(i, digit_run_end(s, i))), digit_run_end(s, i))
        } else {
            (TokenView::Illegal, i + 1)
        }
    }
}

/// The next token from position `i`: skip whitespace, then scan one unit.
pub open spec fn spec_next_token(s: Seq<char>, i: int) -> (TokenView, int) {
    scan_at(s, skip_ws_from(s, i))
}

/// Check if a string represents a keyword and if so, return a corresponding Token.
pub fn lookup_ident(ident: String) -> (t: Token)
    ensures
        t@ == spec_lookup_ident(ident@),
{
    if ident == String::from_str("fn") {
        Token::Function
    } else if ident == String::from_str("let") {
        Token::Let
    } else if ident == String::from_str("return") {
        Token::Return
    } else if ident == String::from_str("if") {
        Token::If
    } else if ident == String::from_str("else") {
        Token::Else
    } else if ident == String::from_str("true") {
        Token::True
    } else if ident == String::from_str("false") {
        Token::False
    } else {
        Token::Ident(ident)
    }
}

/// The scanner. It owns the full input text and a pair of cursors: the
/// position of the first character of the unit being scanned, and the
/// forward-only position of the next unconsumed character.
pub struct Lexer {
    /// The full input text, read-only for the scanner's lifetime.
    pub input: String,
    /// Position of the next character not yet loaded into `current`.
    pub read_position: usize,
    /// Position of the character currently under examination.
    pub hold_position: usize,
    /// The character under examination; NUL once the end is reached.
    pub current: char,
}

impl Lexer {
    /// The text being scanned, as a character sequence.
    pub open spec fn text(self) -> Seq<char> {
        self.input@
    }

    /// The position of the character currently under examination.
    pub open spec fn pos(self) -> int {
        self.hold_position as int
    }

    /// The scanner's internal invariant: the read cursor is one past the
    /// hold cursor until the end of the text, where both stop, and the
    /// current character mirrors the text at the hold cursor.
    pub open spec fn wf(self) -> bool {
        &&& self.hold_position <= self.text().len()
        &&& (self.hold_position < self.text().len() ==> self.read_position == self.hold_position
            + 1)
        &&& (self.hold_position == self.text().len() ==> self.read_position
            == self.hold_position)
        &&& self.current == char_at_or_nul(self.text(), self.pos())
    }

    /// Load the character at the read cursor and advance; at the end of the
    /// text both cursors stop and the NUL sentinel is loaded.
    pub fn read_char(&mut self)
        requires
            old(self).read_position <= old(self).text().len(),
        ensures
            final(self).input == old(self).input,
            old(self).read_position < old(self).text().len() ==> {
                &&& final(self).hold_position == old(self).read_position
                &&& final(self).read_position == old(self).read_position + 1
                &&& final(self).current == old(self).text()[old(self).read_position as int]
            },
            old(self).read_position == old(self).text().len() ==> {
                &&& final(self).hold_position == old(self).read_position
                &&& final(self).read_position == old(self).read_position
                &&& final(self).current == '\0'
            },
    {
        let n = self.input.as_str().unicode_len();
        if self.read_position >= n {
            self.current = '\0';
            self.hold_position = self.read_position;
        } else {
            self.current = self.input.as_str().get_char(self.read_position);
            self.hold_position = self.read_position;
            self.read_position = self.read_position + 1;
        }
    }

    /// The character just after the one under examination, without consuming
    /// it; the NUL sentinel when no such character exists.
    pub fn peek_char(&self) -> (c: char)
        requires
            self.wf(),
        ensures
            c == char_at_or_nul(self.text(), self.pos() + 1),
    {
        let n = self.input.as_str().unicode_len();
        if self.read_position >= n {
            '\0'
        } else {
            self.input.as_str().get_char(self.read_position)
        }
    }

    /// Consume whitespace characters until the current character is not
    /// whitespace or the end of the text is reached.
    pub fn skip_whitespace(&mut self)
        requires
            old(self).wf(),
        ensures
            final(self).wf(),
            final(self).input == old(self).input,
            final(self).pos() == skip_ws_from(old(self).text(), old(self).pos()),
    {
        while self.current == ' ' || self.current == '\t' || self.current == '\n'
            || self.current == '\r'
            invariant
                self.wf(),
                self.input == old(self).input,
                skip_ws_from(self.text(), self.pos()) == skip_ws_from(
                    old(self).text(),
                    old(self).pos(),
                ),
            decreases self.text().len() - self.pos(),
        {
            self.read_char();
        }
    }

    /// Consume the maximal run of letter characters starting at the current
    /// position and return its text.
    pub fn read_identifier(&mut self) -> (r: String)
        requires
            old(self).wf(),
        ensures
            final(self).wf(),
            final(self).input == old(self).input,
            final(self).pos() == letter_run_end(old(self).text(), old(self).pos()),
            r@ == old(self).text().subrange(old(self).pos(), final(self).pos()),
    {
        let position = self.hold_position;
        while is_letter(self.current)
            invariant
                self.wf(),
                self.input == old(self).input,
                position == old(self).hold_position,
                position <= self.pos(),
                letter_run_end(self.text(), self.pos()) == letter_run_end(
                    old(self).text(),
                    old(self).pos(),
                ),
            decreases self.text().len() - self.pos(),
        {
            self.read_char();
        }
        let r = self.input.as_str().substring_char(position, self.hold_position);
        r.to_owned()
    }

    /// Consume the maximal run of digit characters starting at the current
    /// position and return its text.
    pub fn read_number(&mut self) -> (r: String)
        requires
            old(self).wf(),
        ensures
            final(self).wf(),
            final(self).input == old(self).input,
            final(self).pos() == digit_run_end(old(self).text(), old(self).pos()),
            r@ == old(self).text().subrange(old(self).pos(), final(self).pos()),
    {
        let position = self.hold_position;
        while is_digit(self.current)
            invariant
                self.wf(),
                self.input == old(self).input,
                position == old(self).hold_position,
                position <= self.pos(),
                digit_run_end(self.text(), self.pos()) == digit_run_end(
                    old(self).text(),
                    old(self).pos(),
                ),
            decreases self.text().len() - self.pos(),
        {
            self.read_char();
        }
        let r = self.input.as_str().substring_char(position, self.hold_position);
        r.to_owned()
    }

    /// Produce the next token in left-to-right order, advancing the scanner
    /// past its lexeme. Unrecognized characters yield `Illegal`; at the end
    /// of the text every call yields `Eof` without moving.
    pub fn next_token(&mut self) -> (t: Token)
        requires
            old(self).wf(),
        ensures
            final(self).wf(),
            final(self).input == old(self).input,
            t@ == spec_next_token(old(self).text(), old(self).pos()).0,
            final(self).pos() == spec_next_token(old(self).text(), old(self).pos()).1,
    {
        self.skip_whitespace();

        let n = self.input.as_str().unicode_len();
        if self.hold_position >= n {
            return Token::Eof;
        }

        let token = match self.current {
            '=' => {
                if self.peek_char() == '=' {
                    self.read_char();
                    Token::Eq
                } else {
                    Token::Assign
                }
            },
            '+' => Token::Plus,
            '(' => Token::LParen,
            ')' => Token::RParen,
            '{' => Token::LBrace,
            '}' => Token::RBrace,
            ',' => Token::Comma,
            ';' => Token::Semicolon,
            '!' => {
                if self.peek_char() == '=' {
                    self.read_char();
                    Token::Neq
                } else {
                    Token::Bang
                }
            },
            '-' => Token::Minus,
            '/' => Token::Slash,
            '*' => Token::Asterisk,
            '<' => Token::Lt,
            '>' => Token::Gt,
            _ => {
                if is_letter(self.current) {
                    let value = self.read_identifier();
                    return lookup_ident(value);
                } else if is_digit(self.current) {
                    let value = self.read_number();
                    return Token::Int(value);
                } else {
                    Token::Illegal
                }
            },
        };
        self.read_char();
        token
    }
}

impl From<String> for Lexer {
    /// Construct a scanner over the given text, primed so that the first
    /// call to `next_token` sees the first character.
    fn from(input: String) -> (r: Lexer) {
        let mut lexer = Lexer { input, read_position: 0, hold_position: 0, current: '\0' };
        lexer.read_char();
        lexer
    }
}

impl vstd::std_specs::convert::FromSpecImpl<String> for Lexer {
    open spec fn obeys_from_spec() -> bool {
        true
    }

    open spec fn from_spec(input: String) -> Lexer {
        Lexer {
            input: input,
            read_position: if input@.len() == 0 {
                0usize
            } else {
                1usize
            },
            hold_position: 0usize,
            current: if input@.len() == 0 {
                '\0'
            } else {
                input@[0]
            },
        }
    }
}

} // verus!

