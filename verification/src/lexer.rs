//! The lexer: a single-pass character scanner producing tokens on demand,
//! with a one-character look-ahead.
//!
//! Character classes are ASCII: whitespace is space, tab, carriage return
//! and newline; identifiers start with an ASCII letter and continue through
//! ASCII letters, digits and underscores; numbers are runs of ASCII digits.
//! Lexical errors are represented in-band: a malformed number or an
//! unterminated string becomes an `Illegal` token whose literal carries the
//! reason, so that the parser may surface them.
//!
//! The function [`spec_next_token`] is the mathematical model of the
//! scanner; [`Lexer::next`] is proved to produce exactly the token and
//! position it describes.

use vstd::prelude::*;
use vstd::string::StrSliceExecFns;
use crate::token::{self, Kind, Token, TokenModel, spec_kind_str, spec_word_kind};

verus! {

pub struct Lexer {
    input: String,
    pos: usize,
    line_num: usize,
    next_pos: usize,
    cur: char,
}

#[derive(Debug, Clone, Copy)]
pub struct Position {
    pub pos: usize,
    pub line_num: usize,
}

/// Whitespace the scanner skips.
pub open spec fn is_ws_char(c: char) -> bool {
    c == ' ' || c == '\t' || c == '\n' || c == '\r'
}

/// ASCII letters, which open identifiers and keywords.
pub open spec fn is_alpha_char(c: char) -> bool {
    (65 <= c as u32 && c as u32 <= 90) || (97 <= c as u32 && c as u32 <= 122)
}

/// ASCII digits.
pub open spec fn is_digit_char(c: char) -> bool {
    48 <= c as u32 && c as u32 <= 57
}

/// Characters that may continue an identifier.
pub open spec fn is_id_char(c: char) -> bool {
    is_alpha_char(c) || is_digit_char(c) || c == '_'
}

fn exec_is_ws_char(c: char) -> (r: bool)
    ensures
        r == is_ws_char(c),
{
    c == ' ' || c == '\t' || c == '\n' || c == '\r'
}

fn exec_is_alpha_char(c: char) -> (r: bool)
    ensures
        r == is_alpha_char(c),
{
    let u = c as u32;
    (65 <= u && u <= 90) || (97 <= u && u <= 122)
}

fn exec_is_digit_char(c: char) -> (r: bool)
    ensures
        r == is_digit_char(c),
{
    let u = c as u32;
    48 <= u && u <= 57
}

fn exec_is_id_char(c: char) -> (r: bool)
    ensures
        r == is_id_char(c),
{
    exec_is_alpha_char(c) || exec_is_digit_char(c) || c == '_'
}

/// The scanner state is a cursor into the input: `pos` is the index of the
/// current character (or the input length at the end), `next_pos` the index
/// after it, and `cur` the current character (NUL at the end).
pub closed spec fn lexer_wf(l: Lexer) -> bool {
    &&& l.pos <= l.input@.len()
    &&& l.next_pos == if l.pos + 1 <= l.input@.len() {
        l.pos + 1
    } else {
        l.input@.len() as int
    }
    &&& l.cur == if l.pos < l.input@.len() {
        l.input@[l.pos as int]
    } else {
        '\0'
    }
}

/// Index of the first non-whitespace character at or after `i`.
pub open spec fn spec_skip_ws(s: Seq<char>, i: int) -> int
    decreases s.len() - i,
{
    if i < 0 || i >= s.len() {
        s.len() as int
    } else if is_ws_char(s[i]) {
        spec_skip_ws(s, i + 1)
    } else {
        i
    }
}

/// Index of the last identifier character of the identifier starting at `i`.
pub open spec fn spec_scan_id_end(s: Seq<char>, i: int) -> int
    decreases s.len() - i,
{
    if i + 1 < s.len() && is_id_char(s[i + 1]) {
        spec_scan_id_end(s, i + 1)
    } else {
        i
    }
}

/// Scan of the number starting at `i`: the index its run ends at, and
/// whether the run was numeric (a letter inside the run makes it fail).
pub open spec fn spec_scan_num(s: Seq<char>, i: int) -> (int, bool)
    decreases s.len() - i,
{
    if i + 1 < s.len() && (is_alpha_char(s[i + 1]) || is_digit_char(s[i + 1])) {
        if is_alpha_char(s[i + 1]) {
            (i, false)
        } else {
            spec_scan_num(s, i + 1)
        }
    } else {
        (i, true)
    }
}

/// Index of the character closing the string opened by the `"` at `i`: the
/// first following `"`, NUL, or the input length.
pub open spec fn spec_scan_str_end(s: Seq<char>, i: int) -> int
    decreases s.len() - i,
{
    if i + 1 >= s.len() {
        s.len() as int
    } else if s[i + 1] == '"' || s[i + 1] == '\0' {
        i + 1
    } else {
        spec_scan_str_end(s, i + 1)
    }
}

/// One scanning step: the token produced and the cursor after it.
pub struct LexStep {
    pub token: TokenModel,
    pub new_pos: int,
}

pub open spec fn tok(kind: Kind) -> TokenModel {
    TokenModel { kind, literal: spec_kind_str(kind) }
}

/// The token the scanner emits at position `pos` of `s`, and the position
/// it leaves the cursor at.
pub open spec fn spec_next_token(s: Seq<char>, pos: int) -> LexStep {
    let i = spec_skip_ws(s, pos);
    if i >= s.len() {
        LexStep { token: tok(Kind::EOF), new_pos: s.len() as int }
    } else {
        let c = s[i];
        if c == '+' {
            LexStep { token: tok(Kind::Plus), new_pos: i + 1 }
        } else if c == '-' {
            LexStep { token: tok(Kind::Minus), new_pos: i + 1 }
        } else if c == '*' {
            LexStep { token: tok(Kind::Product), new_pos: i + 1 }
        } else if c == '/' {
            LexStep { token: tok(Kind::Divide), new_pos: i + 1 }
        } else if c == '%' {
            LexStep { token: tok(Kind::Mod), new_pos: i + 1 }
        } else if c == '(' {
            LexStep { token: tok(Kind::LPAREN), new_pos: i + 1 }
        } else if c == ')' {
            LexStep { token: tok(Kind::RPAREN), new_pos: i + 1 }
        } else if c == '{' {
            LexStep { token: tok(Kind::LBRACE), new_pos: i + 1 }
        } else if c == '}' {
            LexStep { token: tok(Kind::RBRACE), new_pos: i + 1 }
        } else if c == ',' {
            LexStep { token: tok(Kind::Comma), new_pos: i + 1 }
        } else if c == ';' {
            LexStep { token: tok(Kind::Semicolon), new_pos: i + 1 }
        } else if c == '\0' {
            LexStep { token: tok(Kind::EOF), new_pos: i + 1 }
        } else if c == '=' {
            if i + 1 < s.len() && s[i + 1] == '=' {
                LexStep { token: tok(Kind::EQ), new_pos: i + 2 }
            } else {
                LexStep { token: tok(Kind::Assign), new_pos: i + 1 }
            }
        } else if c == '!' {
            if i + 1 < s.len() && s[i + 1] == '=' {
                LexStep { token: tok(Kind::NOT_EQ), new_pos: i + 2 }
            } else {
                LexStep { token: tok(Kind::Bang), new_pos: i + 1 }
            }
        } else if c == '<' {
            if i + 1 < s.len() && s[i + 1] == '=' {
                LexStep { token: tok(Kind::LT_OR_EQ), new_pos: i + 2 }
            } else {
                LexStep { token: tok(Kind::LT), new_pos: i + 1 }
            }
        } else if c == '>' {
            if i + 1 < s.len() && s[i + 1] == '=' {
                LexStep { token: tok(Kind::GT_OR_EQ), new_pos: i + 2 }
            } else {
                LexStep { token: tok(Kind::GT), new_pos: i + 1 }
            }
        } else if c == '&' {
            if i + 1 < s.len() && s[i + 1] == '&' {
                LexStep { token: tok(Kind::And), new_pos: i + 2 }
            } else {
                LexStep { token: tok(Kind::Bit_And), new_pos: i + 1 }
            }
        } else if c == '|' {
            if i + 1 < s.len() && s[i + 1] == '|' {
                LexStep { token: tok(Kind::Or), new_pos: i + 2 }
            } else {
                LexStep { token: tok(Kind::Bit_Or), new_pos: i + 1 }
            }
        } else if c == '"' {
            let j = spec_scan_str_end(s, i);
            if j < s.len() && s[j] == '"' {
                LexStep {
                    token: TokenModel { kind: Kind::String, literal: s.subrange(i + 1, j) },
                    new_pos: j + 1,
                }
            } else {
                LexStep {
                    token: TokenModel {
                        kind: Kind::Illegal,
                        literal: "closing (\") not found"@,
                    },
                    new_pos: if j < s.len() {
                        j
                    } else {
                        s.len() as int
                    },
                }
            }
        } else if is_alpha_char(c) {
            let e = spec_scan_id_end(s, i);
            let word = s.subrange(i, e + 1);
            LexStep {
                token: TokenModel { kind: spec_word_kind(word), literal: word },
                new_pos: e + 1,
            }
        } else if is_digit_char(c) {
            let (e, ok) = spec_scan_num(s, i);
            if ok {
                LexStep {
                    token: TokenModel { kind: Kind::Int, literal: s.subrange(i, e + 1) },
                    new_pos: e + 1,
                }
            } else {
                LexStep {
                    token: TokenModel {
                        kind: Kind::Illegal,
                        literal: s.subrange(i, e + 1) + " is not a numeric"@,
                    },
                    new_pos: e + 1,
                }
            }
        } else {
            LexStep { token: tok(Kind::Illegal), new_pos: i + 1 }
        }
    }
}

impl Lexer {
    /// The input the lexer was created over.
    pub closed spec fn src(&self) -> Seq<char> {
        self.input@
    }

    /// The cursor position.
    pub closed spec fn cursor(&self) -> int {
        self.pos as int
    }

    /// The line the scanner has counted up to.
    pub closed spec fn line(&self) -> int {
        self.line_num as int
    }

    /// Creates a new lexer over the given input, with the cursor on the
    /// first character.
    pub fn new(input: String) -> (l: Self)
        ensures
            lexer_wf(l),
            l.src() == input@,
            l.cursor() == 0,
    {
        let mut lex = Lexer { input, pos: 0, line_num: 0, next_pos: 0, cur: '\0' };
        lex.read_char();
        lex
    }

    fn read_char(&mut self)
        requires
            old(self).next_pos == if old(self).pos + 1 <= old(self).input@.len() {
                old(self).pos + 1
            } else {
                old(self).input@.len() as int
            } || (old(self).pos == 0 && old(self).next_pos == 0),
            old(self).pos <= old(self).input@.len(),
        ensures
            lexer_wf(*final(self)),
            final(self).input == old(self).input,
            final(self).line_num == old(self).line_num,
            final(self).pos == old(self).next_pos,
    {
        if self.next_pos >= self.input.unicode_len() {
            self.cur = '\0';
            self.pos = self.next_pos;
            proof {
                assert(self.pos <= self.input@.len());
            }
        } else {
            self.cur = self.input.as_str().get_char(self.next_pos);
            self.pos = self.next_pos;
            self.next_pos = self.next_pos + 1;
            return ;
        }
        // at the end of the input, the cursor stays put
    }

    fn peek_char(&self) -> (c: char)
        requires
            lexer_wf(*self),
        ensures
            c == if self.next_pos < self.input@.len() {
                self.input@[self.next_pos as int]
            } else {
                '\0'
            },
    {
        if self.next_pos >= self.input.unicode_len() {
            return '\0';
        }
        self.input.as_str().get_char(self.next_pos)
    }

    fn skip_whitespace(&mut self)
        requires
            lexer_wf(*old(self)),
        ensures
            lexer_wf(*final(self)),
            final(self).input == old(self).input,
            final(self).pos == spec_skip_ws(old(self).input@, old(self).pos as int),
    {
        while exec_is_ws_char(self.cur)
            invariant
                lexer_wf(*self),
                self.input == old(self).input,
                spec_skip_ws(self.input@, self.pos as int) == spec_skip_ws(
                    old(self).input@,
                    old(self).pos as int,
                ),
            decreases self.input@.len() - self.pos,
        {
            if self.cur == '\n' {
                if self.line_num < usize::MAX {
                    self.line_num = self.line_num + 1;
                }
            }
            self.read_char();
        }
        proof {
            if self.pos < self.input@.len() {
                assert(!is_ws_char(self.input@[self.pos as int]));
            }
        }
    }

    fn read_id(&mut self) -> (r: String)
        requires
            lexer_wf(*old(self)),
            old(self).pos < old(self).input@.len(),
        ensures
            lexer_wf(*final(self)),
            final(self).input == old(self).input,
            final(self).pos == spec_scan_id_end(old(self).input@, old(self).pos as int),
            final(self).pos < final(self).input@.len(),
            r@ == old(self).input@.subrange(
                old(self).pos as int,
                final(self).pos + 1,
            ),
    {
        let start = self.pos;
        loop
            invariant
                lexer_wf(*self),
                self.input == old(self).input,
                start == old(self).pos,
                self.pos < self.input@.len(),
                start <= self.pos,
                spec_scan_id_end(self.input@, self.pos as int) == spec_scan_id_end(
                    old(self).input@,
                    old(self).pos as int,
                ),
            ensures
                lexer_wf(*self),
                self.input == old(self).input,
                start == old(self).pos,
                self.pos < self.input@.len(),
                spec_scan_id_end(self.input@, self.pos as int) == spec_scan_id_end(
                    old(self).input@,
                    old(self).pos as int,
                ),
                !(self.pos + 1 < self.input@.len() && is_id_char(self.input@[self.pos + 1])),
            decreases self.input@.len() - self.pos,
        {
            let p = self.peek_char();
            if !(exec_is_id_char(p) && self.next_pos < self.input.unicode_len()) {
                break ;
            }
            self.read_char();
        }
        let r = self.input.as_str().substring_char(start, self.pos + 1).to_owned();
        r
    }

    fn read_num(&mut self) -> (r: Result<String, LexerError>)
        requires
            lexer_wf(*old(self)),
            old(self).pos < old(self).input@.len(),
        ensures
            lexer_wf(*final(self)),
            final(self).input == old(self).input,
            final(self).pos < final(self).input@.len(),
            final(self).pos == spec_scan_num(old(self).input@, old(self).pos as int).0,
            match r {
                Ok(lit) => spec_scan_num(old(self).input@, old(self).pos as int).1 && lit@ == old(
                    self,
                ).input@.subrange(old(self).pos as int, final(self).pos + 1),
                Err(e) => !spec_scan_num(old(self).input@, old(self).pos as int).1 && e.reason@
                    == old(self).input@.subrange(old(self).pos as int, final(self).pos + 1)
                    + " is not a numeric"@,
            },
    {
        let start = self.pos;
        loop
            invariant
                lexer_wf(*self),
                self.input == old(self).input,
                start == old(self).pos,
                self.pos < self.input@.len(),
                start <= self.pos,
                spec_scan_num(self.input@, self.pos as int) == spec_scan_num(
                    old(self).input@,
                    old(self).pos as int,
                ),
            ensures
                lexer_wf(*self),
                self.input == old(self).input,
                start == old(self).pos,
                self.pos < self.input@.len(),
                spec_scan_num(self.input@, self.pos as int) == spec_scan_num(
                    old(self).input@,
                    old(self).pos as int,
                ),
                !(self.pos + 1 < self.input@.len() && (is_alpha_char(
                    self.input@[self.pos + 1],
                ) || is_digit_char(self.input@[self.pos + 1]))),
            decreases self.input@.len() - self.pos,
        {
            let p = self.peek_char();
            let in_run = self.next_pos < self.input.unicode_len() && (exec_is_alpha_char(p)
                || exec_is_digit_char(p));
            if !in_run {
                break ;
            }
            if exec_is_alpha_char(p) {
                let lit = self.input.as_str().substring_char(start, self.pos + 1).to_owned();
                let mut reason = lit;
                reason.append(" is not a numeric");
                let err = LexerError { pos_start: start, pos_end: self.pos, reason };
                return Err(err);
            }
            self.read_char();
        }
        let r = self.input.as_str().substring_char(start, self.pos + 1).to_owned();
        Ok(r)
    }

    fn read_string(&mut self) -> (r: Result<String, LexerError>)
        requires
            lexer_wf(*old(self)),
            old(self).pos < old(self).input@.len(),
        ensures
            lexer_wf(*final(self)),
            final(self).input == old(self).input,
            match r {
                Ok(lit) => {
                    let j = spec_scan_str_end(old(self).input@, old(self).pos as int);
                    &&& j < old(self).input@.len()
                    &&& old(self).input@[j] == '"'
                    &&& final(self).pos == j
                    &&& lit@ == old(self).input@.subrange(old(self).pos + 1, j)
                },
                Err(e) => {
                    let j = spec_scan_str_end(old(self).input@, old(self).pos as int);
                    &&& !(j < old(self).input@.len() && old(self).input@[j] == '"')
                    &&& final(self).pos + 1 == j
                    &&& e.reason@ == "closing (\") not found"@
                },
            },
    {
        let start = self.pos;
        loop
            invariant
                lexer_wf(*self),
                self.input == old(self).input,
                start == old(self).pos,
                self.pos < self.input@.len(),
                start <= self.pos,
                spec_scan_str_end(self.input@, self.pos as int) == spec_scan_str_end(
                    old(self).input@,
                    old(self).pos as int,
                ),
            ensures
                lexer_wf(*self),
                self.input == old(self).input,
                start == old(self).pos,
                self.pos < self.input@.len(),
                spec_scan_str_end(self.input@, self.pos as int) == spec_scan_str_end(
                    old(self).input@,
                    old(self).pos as int,
                ),
                self.pos + 1 >= self.input@.len() || self.input@[self.pos + 1] == '"'
                    || self.input@[self.pos + 1] == '\0',
            decreases self.input@.len() - self.pos,
        {
            let p = self.peek_char();
            if p == '"' || p == '\0' {
                break ;
            }
            self.read_char();
        }
        let p = self.peek_char();
        if p == '\0' {
            proof {
                let j = spec_scan_str_end(old(self).input@, old(self).pos as int);
                if self.next_pos < self.input@.len() {
                    assert(self.input@[self.next_pos as int] == '\0');
                }
            }
            let err = LexerError {
                pos_start: start,
                pos_end: self.pos,
                reason: "closing (\") not found".to_owned(),
            };
            return Err(err);
        }
        let content_start = start + 1;
        self.read_char();
        let r = self.input.as_str().substring_char(content_start, self.pos).to_owned();
        Ok(r)
    }

    /// The current position, for error reporting: the cursor and the line
    /// the scanner has counted up to.
    pub fn get_pos(&self) -> (p: Position)
        ensures
            p.pos == self.cursor(),
            p.line_num == self.line(),
    {
        Position { line_num: self.line_num, pos: self.pos }
    }

    /// Emits the next token and advances the cursor past it. At the end of
    /// the input it keeps returning the end-of-input token.
    pub fn next(&mut self) -> (t: Token)
        requires
            lexer_wf(*old(self)),
        ensures
            lexer_wf(*final(self)),
            final(self).src() == old(self).src(),
            t@ == spec_next_token(old(self).src(), old(self).cursor()).token,
            final(self).cursor() == spec_next_token(old(self).src(), old(self).cursor()).new_pos,
    {
        self.skip_whitespace();

        let ghost s = self.input@;
        let ghost i = self.pos as int;

        let mut token: Token = Token::new(token::Kind::Illegal);

        match self.cur {
            '+' => token = Token::new(token::Kind::Plus),
            '-' => token = Token::new(token::Kind::Minus),
            '*' => token = Token::new(token::Kind::Product),
            '/' => token = Token::new(token::Kind::Divide),
            '%' => token = Token::new(token::Kind::Mod),
            '(' => token = Token::new(token::Kind::LPAREN),
            ')' => token = Token::new(token::Kind::RPAREN),
            '{' => token = Token::new(token::Kind::LBRACE),
            '}' => token = Token::new(token::Kind::RBRACE),
            ',' => token = Token::new(token::Kind::Comma),
            ';' => token = Token::new(token::Kind::Semicolon),
            '\0' => token = Token::new(token::Kind::EOF),
            '=' => {
                if self.peek_char() == '=' {
                    self.read_char();
                    token = Token::new(token::Kind::EQ);
                } else {
                    token = Token::new(token::Kind::Assign);
                }
            },
            '!' => {
                if self.peek_char() == '=' {
                    self.read_char();
                    token = Token::new(token::Kind::NOT_EQ);
                } else {
                    token = Token::new(token::Kind::Bang);
                }
            },
            '<' => {
                if self.peek_char() == '=' {
                    self.read_char();
                    token = Token::new(token::Kind::LT_OR_EQ);
                } else {
                    token = Token::new(token::Kind::LT);
                }
            },
            '>' => {
                if self.peek_char() == '=' {
                    self.read_char();
                    token = Token::new(token::Kind::GT_OR_EQ);
                } else {
                    token = Token::new(token::Kind::GT);
                }
            },
            '&' => {
                if self.peek_char() == '&' {
                    self.read_char();
                    token = Token::new(token::Kind::And);
                } else {
                    token = Token::new(token::Kind::Bit_And);
                }
            },
            '|' => {
                if self.peek_char() == '|' {
                    self.read_char();
                    token = Token::new(token::Kind::Or);
                } else {
                    token = Token::new(token::Kind::Bit_Or);
                }
            },
            '"' => {
                let result = self.read_string();
                match result {
                    Ok(lit) => {
                        token.kind = Kind::String;
                        token.literal = lit;
                    },
                    Err(err) => {
                        token.literal = err.reason;
                    },
                }
            },
            any => {
                if exec_is_alpha_char(any) {
                    token.literal = self.read_id();
                    token.kind = token::get_token_kind(token.literal.as_str());
                } else if exec_is_digit_char(any) {
                    let read_result = self.read_num();
                    match read_result {
                        Ok(lit) => {
                            token.literal = lit;
                            token.kind = token::Kind::Int;
                        },
                        Err(err) => {
                            token.literal = err.reason;
                        },
                    }
                }
            },
        }
        self.read_char();
        token
    }
}

#[derive(Debug)]
pub struct LexerError {
    pub pos_start: usize,
    pub pos_end: usize,
    pub reason: String,
}

/// A well-formed lexer's cursor lies within its input.
pub proof fn lemma_lexer_wf_bounds(l: Lexer)
    requires
        lexer_wf(l),
    ensures
        0 <= l.cursor() <= l.src().len(),
{
}

/// Skipping whitespace stays within the input.
pub proof fn lemma_skip_ws_bounds(s: Seq<char>, pos: int)
    requires
        0 <= pos <= s.len(),
    ensures
        pos <= spec_skip_ws(s, pos) <= s.len(),
    decreases s.len() - pos,
{
    if pos < s.len() && is_ws_char(s[pos]) {
        lemma_skip_ws_bounds(s, pos + 1);
    }
}

/// An identifier run ends within the input.
pub proof fn lemma_scan_id_bounds(s: Seq<char>, i: int)
    requires
        0 <= i < s.len(),
    ensures
        i <= spec_scan_id_end(s, i) < s.len(),
    decreases s.len() - i,
{
    if i + 1 < s.len() && is_id_char(s[i + 1]) {
        lemma_scan_id_bounds(s, i + 1);
    }
}

/// A number run ends within the input.
pub proof fn lemma_scan_num_bounds(s: Seq<char>, i: int)
    requires
        0 <= i < s.len(),
    ensures
        i <= spec_scan_num(s, i).0 < s.len(),
    decreases s.len() - i,
{
    if i + 1 < s.len() && (is_alpha_char(s[i + 1]) || is_digit_char(s[i + 1])) {
        if !is_alpha_char(s[i + 1]) {
            lemma_scan_num_bounds(s, i + 1);
        }
    }
}

/// A string scan ends within the input, past its opening quote.
pub proof fn lemma_scan_str_bounds(s: Seq<char>, i: int)
    requires
        0 <= i < s.len(),
    ensures
        i + 1 <= spec_scan_str_end(s, i) <= s.len(),
    decreases s.len() - i,
{
    if i + 1 < s.len() && !(s[i + 1] == '"' || s[i + 1] == '\0') {
        lemma_scan_str_bounds(s, i + 1);
    }
}

/// Scanning never moves backwards, stays within the input, and moves
/// strictly forwards whenever the token is not the end-of-input token.
pub proof fn lemma_next_token_bounds(s: Seq<char>, pos: int)
    requires
        0 <= pos <= s.len(),
    ensures
        pos <= spec_next_token(s, pos).new_pos <= s.len(),
        spec_next_token(s, pos).token.kind != Kind::EOF ==> spec_next_token(s, pos).new_pos > pos,
{
    lemma_skip_ws_bounds(s, pos);
    let i = spec_skip_ws(s, pos);
    if i < s.len() {
        let c = s[i];
        if c == '"' {
            lemma_scan_str_bounds(s, i);
        } else if is_alpha_char(c) {
            lemma_scan_id_bounds(s, i);
        } else if is_digit_char(c) {
            lemma_scan_num_bounds(s, i);
        }
    }
}

/// The whole token stream of `s` from `pos`: tokens in order up to and
/// including the first end-of-input token.
pub open spec fn spec_token_stream(s: Seq<char>, pos: int) -> Seq<TokenModel>
    decreases s.len() - pos,
{
    let st = spec_next_token(s, pos);
    if st.token.kind == Kind::EOF {
        seq![st.token]
    } else {
        if pos < st.new_pos <= s.len() {
            seq![st.token] + spec_token_stream(s, st.new_pos)
        } else {
            seq![st.token]
        }
    }
}

/// Whether a character sequence is a non-empty run of ASCII digits.
pub open spec fn all_digits(s: Seq<char>) -> bool {
    forall|i: int| 0 <= i < s.len() ==> is_digit_char(#[trigger] s[i])
}

/// The value a run of decimal digits denotes.
pub open spec fn spec_digits_val(s: Seq<char>) -> int
    decreases s,
{
    if s.len() == 0 {
        0
    } else {
        spec_digits_val(s.drop_last()) * 10 + (s.last() as u32 - 48)
    }
}

/// The value of a digit run is at least the value of any of its prefixes,
/// and never negative.
pub proof fn lemma_digits_prefix(s: Seq<char>, j: int)
    requires
        all_digits(s),
        0 <= j <= s.len(),
    ensures
        0 <= spec_digits_val(s.take(j)) <= spec_digits_val(s),
    decreases s.len() - j,
{
    if j == s.len() {
        assert(s.take(j) =~= s);
        lemma_digits_nonneg(s);
    } else {
        lemma_digits_prefix(s, j + 1);
        assert(s.take(j + 1).drop_last() =~= s.take(j));
        assert(s.take(j + 1).last() == s[j]);
        lemma_digits_nonneg(s.take(j));
        assert(is_digit_char(s[j]));
    }
}

/// The value of a digit run is never negative.
pub proof fn lemma_digits_nonneg(s: Seq<char>)
    requires
        all_digits(s),
    ensures
        spec_digits_val(s) >= 0,
    decreases s,
{
    if s.len() > 0 {
        assert(is_digit_char(s.last()));
        assert(all_digits(s.drop_last())) by {
            assert(forall|i: int|
                0 <= i < s.drop_last().len() ==> s.drop_last()[i] == s[i]);
        }
        lemma_digits_nonneg(s.drop_last());
    }
}

/// Reads a non-empty run of decimal digits as a 64-bit signed integer.
/// Fails where the text is empty, holds a non-digit, or denotes a value
/// over `i64::MAX`.
pub fn parse_i64_digits(s: &str) -> (r: Option<i64>)
    ensures
        match r {
            Some(v) => s@.len() > 0 && all_digits(s@) && spec_digits_val(s@) <= i64::MAX && v
                as int == spec_digits_val(s@),
            None => !(s@.len() > 0 && all_digits(s@) && spec_digits_val(s@) <= i64::MAX),
        },
{
    let n = s.unicode_len();
    if n == 0 {
        return None;
    }
    let mut acc: i64 = 0;
    let mut i: usize = 0;
    proof {
        assert(s@.take(0) =~= Seq::<char>::empty());
    }
    while i < n
        invariant
            n == s@.len(),
            0 <= i <= n,
            all_digits(s@.take(i as int)),
            0 <= acc,
            acc as int == spec_digits_val(s@.take(i as int)),
        decreases n - i,
    {
        let c = s.get_char(i);
        if !exec_is_digit_char(c) {
            return None;
        }
        let d = (c as u32 - 48) as i64;
        proof {
            assert(s@.take(i + 1 as int).drop_last() =~= s@.take(i as int));
            assert(s@.take(i + 1 as int).last() == s@[i as int]);
            assert(all_digits(s@.take(i + 1 as int))) by {
                assert(forall|k: int|
                    0 <= k < i + 1 ==> s@.take(i + 1 as int)[k] == s@[k]);
            }
        }
        let shifted = match acc.checked_mul(10) {
            Some(x) => x,
            None => {
                proof {
                    if all_digits(s@) {
                        lemma_digits_prefix(s@, i + 1 as int);
                    }
                }
                return None;
            },
        };
        let next = match shifted.checked_add(d) {
            Some(x) => x,
            None => {
                proof {
                    if all_digits(s@) {
                        lemma_digits_prefix(s@, i + 1 as int);
                    }
                }
                return None;
            },
        };
        acc = next;
        i = i + 1;
    }
    proof {
        assert(s@.take(n as int) =~= s@);
    }
    Some(acc)
}

} // verus!
