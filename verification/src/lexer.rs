//! The lexical scanner: a stateful cursor over the raw source text that
//! produces one token per call.
//!
//! What `next_token` does is pinned down by the spec-level scan function
//! `scan_at`: skip whitespace (counting line breaks), then dispatch on the
//! first non-whitespace character — single-character punctuation, `::`,
//! a string literal, an identifier or keyword, a numeric literal — or fail
//! on anything else. Once the source is exhausted it returns `EOF`
//! forever.

use vstd::prelude::*;
use crate::chars::{
    char_is_alphanumeric,
    char_is_alphabetic,
    char_is_numeric,
    char_is_whitespace,
    is_alphabetic_char,
    is_alphanumeric_char,
    is_numeric_char,
    is_whitespace_char,
};
use crate::decimal::{all_dec_digits, dec_val, parse_dec_digits};
use crate::errors::{CompileError, ErrorKind, ErrorKindV};
use crate::tokens::{str_eq, TokenV, Tokens};

verus! {

/// The first index at or after `i` whose character is not whitespace
/// (`s.len()` when only whitespace remains).
pub open spec fn ws_end(s: Seq<char>, i: int) -> int
    decreases s.len() - i,
        when 0 <= i <= s.len()
{
    if i >= s.len() {
        i
    } else if is_whitespace_char(s[i]) {
        ws_end(s, i + 1)
    } else {
        i
    }
}

/// The number of line breaks in `s[i..j)`.
pub open spec fn newline_count(s: Seq<char>, i: int, j: int) -> int
    decreases j - i,
        when i <= j
{
    if i >= j {
        0
    } else {
        (if s[i] == '\n' {
            1int
        } else {
            0int
        }) + newline_count(s, i + 1, j)
    }
}

/// A character that may continue an identifier. Alphabetic characters are
/// alphanumeric by `char`'s documentation, and stand here by definition so
/// that an identifier provably spans at least its starting character.
pub open spec fn ident_char(c: char) -> bool {
    is_alphanumeric_char(c) || is_alphabetic_char(c) || c == '_'
}

/// A character that may continue a numeric literal: digits, with
/// underscores tolerated as digit-group separators.
pub open spec fn num_char(c: char) -> bool {
    is_numeric_char(c) || c == '_'
}

/// The first index at or after `i` whose character cannot continue an
/// identifier.
pub open spec fn ident_end(s: Seq<char>, i: int) -> int
    decreases s.len() - i,
        when 0 <= i <= s.len()
{
    if i < s.len() && ident_char(s[i]) {
        ident_end(s, i + 1)
    } else {
        i
    }
}

/// The first index at or after `i` whose character cannot continue a
/// numeric literal.
pub open spec fn num_end(s: Seq<char>, i: int) -> int
    decreases s.len() - i,
        when 0 <= i <= s.len()
{
    if i < s.len() && num_char(s[i]) {
        num_end(s, i + 1)
    } else {
        i
    }
}

/// The first index at or after `i` holding a closing double quote
/// (`s.len()` when the literal is unterminated).
pub open spec fn str_lit_end(s: Seq<char>, i: int) -> int
    decreases s.len() - i,
        when 0 <= i <= s.len()
{
    if i < s.len() && s[i] != '"' {
        str_lit_end(s, i + 1)
    } else {
        i
    }
}

/// The digit characters of a numeric literal's raw text, with the
/// tolerated underscore separators removed.
pub open spec fn strip_underscores(s: Seq<char>) -> Seq<char>
    decreases s.len(),
{
    if s.len() == 0 {
        Seq::empty()
    } else if s.last() == '_' {
        strip_underscores(s.drop_last())
    } else {
        strip_underscores(s.drop_last()).push(s.last())
    }
}

/// The outcome of one scan step: a token and the cursor position after
/// it, or a lexical error and the position where scanning stopped.
pub enum ScanOut {
    Tok { t: TokenV, end: int },
    Fail { k: ErrorKindV, end: int },
}

/// One scan step at position `i` of source `s`: exactly what a
/// `next_token` call observes and returns.
pub open spec fn scan_at(s: Seq<char>, i: int) -> ScanOut {
    let j = ws_end(s, i);
    if j >= s.len() {
        ScanOut::Tok { t: TokenV::EOF, end: j }
    } else {
        let c = s[j];
        if c == ';' {
            ScanOut::Tok { t: TokenV::SEMICOLON, end: j + 1 }
        } else if c == '=' {
            ScanOut::Tok { t: TokenV::EQUALS, end: j + 1 }
        } else if c == '+' {
            ScanOut::Tok { t: TokenV::PLUS, end: j + 1 }
        } else if c == '-' {
            ScanOut::Tok { t: TokenV::MINUS, end: j + 1 }
        } else if c == '{' {
            ScanOut::Tok { t: TokenV::OPENCURLY, end: j + 1 }
        } else if c == '}' {
            ScanOut::Tok { t: TokenV::CLOSECURLY, end: j + 1 }
        } else if c == '(' {
            ScanOut::Tok { t: TokenV::OPENPAREN, end: j + 1 }
        } else if c == ')' {
            ScanOut::Tok { t: TokenV::CLOSEPAREN, end: j + 1 }
        } else if c == ':' {
            if j + 1 < s.len() && s[j + 1] == ':' {
                ScanOut::Tok { t: TokenV::DOUBLECOL, end: j + 2 }
            } else {
                ScanOut::Fail { k: ErrorKindV::LoneColon, end: j + 1 }
            }
        } else if c == '"' {
            let k = str_lit_end(s, j + 1);
            if k < s.len() {
                ScanOut::Tok { t: TokenV::STRING(s.subrange(j + 1, k)), end: k + 1 }
            } else {
                ScanOut::Fail { k: ErrorKindV::UnterminatedString, end: k }
            }
        } else if is_alphabetic_char(c) {
            let k = ident_end(s, j);
            let text = s.subrange(j, k);
            if text == "let"@ {
                ScanOut::Tok { t: TokenV::LET, end: k }
            } else if text == "void"@ {
                ScanOut::Tok { t: TokenV::VOID, end: k }
            } else if text == "int"@ {
                ScanOut::Tok { t: TokenV::INT, end: k }
            } else if text == "return"@ {
                ScanOut::Tok { t: TokenV::RETURN, end: k }
            } else {
                ScanOut::Tok { t: TokenV::IDENT(text), end: k }
            }
        } else if is_numeric_char(c) {
            let k = num_end(s, j);
            let digits = strip_underscores(s.subrange(j, k));
            if all_dec_digits(digits) && dec_val(digits) <= i32::MAX {
                ScanOut::Tok { t: TokenV::NUMBER(dec_val(digits)), end: k }
            } else {
                ScanOut::Fail { k: ErrorKindV::MalformedNumber(s.subrange(j, k)), end: k }
            }
        } else {
            ScanOut::Fail { k: ErrorKindV::UnknownChar(c), end: j }
        }
    }
}

pub proof fn lemma_ws_end_bounds(s: Seq<char>, i: int)
    requires
        0 <= i <= s.len(),
    ensures
        i <= ws_end(s, i) <= s.len(),
    decreases s.len() - i,
{
    if i < s.len() && is_whitespace_char(s[i]) {
        lemma_ws_end_bounds(s, i + 1);
    }
}

pub proof fn lemma_ident_end_bounds(s: Seq<char>, i: int)
    requires
        0 <= i <= s.len(),
    ensures
        i <= ident_end(s, i) <= s.len(),
    decreases s.len() - i,
{
    if i < s.len() && ident_char(s[i]) {
        lemma_ident_end_bounds(s, i + 1);
    }
}

pub proof fn lemma_num_end_bounds(s: Seq<char>, i: int)
    requires
        0 <= i <= s.len(),
    ensures
        i <= num_end(s, i) <= s.len(),
    decreases s.len() - i,
{
    if i < s.len() && num_char(s[i]) {
        lemma_num_end_bounds(s, i + 1);
    }
}

pub proof fn lemma_str_lit_end_bounds(s: Seq<char>, i: int)
    requires
        0 <= i <= s.len(),
    ensures
        i <= str_lit_end(s, i) <= s.len(),
    decreases s.len() - i,
{
    if i < s.len() && s[i] != '"' {
        lemma_str_lit_end_bounds(s, i + 1);
    }
}

proof fn lemma_newline_count_snoc(s: Seq<char>, i: int, j: int)
    requires
        i <= j,
    ensures
        newline_count(s, i, j + 1) == newline_count(s, i, j) + (if s[j] == '\n' {
            1int
        } else {
            0int
        }),
    decreases j - i,
{
    if i < j {
        lemma_newline_count_snoc(s, i + 1, j);
    } else {
        assert(newline_count(s, j + 1, j + 1) == 0);
        assert(newline_count(s, j, j) == 0);
    }
}

/// A scan step never moves the cursor backwards, never past the end, and
/// moves it strictly forward whenever it yields a token other than `EOF`.
pub proof fn lemma_scan_progress(s: Seq<char>, i: int)
    requires
        0 <= i <= s.len(),
    ensures
        match scan_at(s, i) {
            ScanOut::Tok { t, end } => i <= end <= s.len() && (!(t is EOF) ==> i < end),
            ScanOut::Fail { k, end } => i <= end <= s.len(),
        },
{
    lemma_ws_end_bounds(s, i);
    let j = ws_end(s, i);
    if j < s.len() {
        let c = s[j];
        if c == ':' {
        } else if c == '"' {
            lemma_str_lit_end_bounds(s, j + 1);
        } else if is_alphabetic_char(c) {
            lemma_ident_end_bounds(s, j + 1);
            assert(ident_end(s, j) == ident_end(s, j + 1));
        } else if is_numeric_char(c) {
            lemma_num_end_bounds(s, j + 1);
            assert(num_end(s, j) == num_end(s, j + 1));
        }
    }
}

/// The scanner: a cursor over the source text with a line counter for
/// diagnostics.
pub struct Lexer {
    src: String,
    index: usize,
    n: usize,
    line: usize,
}

impl Lexer {
    /// The source text being scanned.
    pub closed spec fn src_view(&self) -> Seq<char> {
        self.src@
    }

    /// The cursor: the index of the next character to examine.
    pub closed spec fn pos(&self) -> int {
        self.index as int
    }

    /// The current line number, for contracts.
    pub closed spec fn line_no(&self) -> int {
        self.line as int
    }

    /// The current line number, starting at 1, read for diagnostics.
    pub fn current_line(&self) -> (r: usize)
        ensures
            r as int == self.line_no(),
    {
        self.line
    }

    /// The cursor stays within the source.
    pub proof fn lemma_pos_in_bounds(&self)
        requires
            self.wf(),
        ensures
            0 <= self.pos() <= self.src_view().len(),
    {
    }

    /// The cursor is within bounds and the line counter cannot overflow.
    pub closed spec fn wf(&self) -> bool {
        &&& self.n == self.src@.len()
        &&& self.index <= self.n
        &&& self.n < usize::MAX
        &&& 1 <= self.line
        &&& self.line - 1 <= self.index
    }

    /// A scanner at the start of `source`, on line 1.
    pub fn new(source: String) -> (r: Lexer)
        requires
            source@.len() < usize::MAX,
        ensures
            r.wf(),
            r.src_view() == source@,
            r.pos() == 0,
            r.line_no() == 1,
    {
        let n = source.as_str().unicode_len();
        Lexer { src: source, index: 0, n, line: 1 }
    }

    /// Produces the next token and advances the cursor past it, exactly
    /// as the scan function `scan_at` prescribes; the line counter grows
    /// by the number of line breaks skipped before the token. A lexical
    /// error reports the line it was found on.
    pub fn next_token(&mut self) -> (r: Result<Tokens, CompileError>)
        requires
            old(self).wf(),
        ensures
            final(self).wf(),
            final(self).src_view() == old(self).src_view(),
            final(self).line_no() == old(self).line_no() + newline_count(
                old(self).src_view(),
                old(self).pos(),
                ws_end(old(self).src_view(), old(self).pos()),
            ),
            match scan_at(old(self).src_view(), old(self).pos()) {
                ScanOut::Tok { t, end } => r matches Ok(tok) && tok@ == t && final(self).pos()
                    == end,
                ScanOut::Fail { k, end } => r matches Err(e) && e.kind@ == k && e.line as int
                    == final(self).line_no() && final(self).pos() == end,
            },
    {
        let ghost s = self.src@;
        let ghost i0 = self.index as int;
        let ghost line0 = self.line as int;
        loop
            invariant
                self.wf(),
                self.src@ == s,
                self.n == s.len(),
                i0 <= self.index as int,
                ws_end(s, i0) == ws_end(s, self.index as int),
                self.line as int == line0 + newline_count(s, i0, self.index as int),
            ensures
                self.wf(),
                self.src@ == s,
                self.n == s.len(),
                i0 <= self.index as int,
                self.index as int == ws_end(s, i0),
                self.line as int == line0 + newline_count(s, i0, ws_end(s, i0)),
                self.index < self.n ==> !is_whitespace_char(s[self.index as int]),
            decreases self.n - self.index,
        {
            if self.index >= self.n {
                break;
            }
            let c = self.src.as_str().get_char(self.index);
            if !char_is_whitespace(c) {
                break;
            }
            proof {
                lemma_newline_count_snoc(s, i0, self.index as int);
            }
            if c == '\n' {
                self.line = self.line + 1;
            }
            self.index = self.index + 1;
        }
        let ghost j = self.index as int;
        let ghost line_now = self.line as int;
        if self.index >= self.n {
            return Ok(Tokens::EOF);
        }
        let c = self.src.as_str().get_char(self.index);
        if c == ';' {
            self.index = self.index + 1;
            return Ok(Tokens::SEMICOLON);
        }
        if c == '=' {
            self.index = self.index + 1;
            return Ok(Tokens::EQUALS);
        }
        if c == '+' {
            self.index = self.index + 1;
            return Ok(Tokens::PLUS);
        }
        if c == '-' {
            self.index = self.index + 1;
            return Ok(Tokens::MINUS);
        }
        if c == '{' {
            self.index = self.index + 1;
            return Ok(Tokens::OPENCURLY);
        }
        if c == '}' {
            self.index = self.index + 1;
            return Ok(Tokens::CLOSECURLY);
        }
        if c == '(' {
            self.index = self.index + 1;
            return Ok(Tokens::OPENPAREN);
        }
        if c == ')' {
            self.index = self.index + 1;
            return Ok(Tokens::CLOSEPAREN);
        }
        if c == ':' {
            if self.index + 1 < self.n {
                let c2 = self.src.as_str().get_char(self.index + 1);
                if c2 == ':' {
                    self.index = self.index + 2;
                    return Ok(Tokens::DOUBLECOL);
                }
            }
            self.index = self.index + 1;
            return Err(CompileError { line: self.line, kind: ErrorKind::LoneColon });
        }
        if c == '"' {
            self.index = self.index + 1;
            let start = self.index;
            loop
                invariant
                    self.wf(),
                    self.src@ == s,
                    self.n == s.len(),
                    start as int == j + 1,
                    start <= self.index,
                    self.line as int == line_now,
                    str_lit_end(s, start as int) == str_lit_end(s, self.index as int),
                ensures
                    self.wf(),
                    self.src@ == s,
                    self.n == s.len(),
                    start <= self.index,
                    self.line as int == line_now,
                    self.index as int == str_lit_end(s, j + 1),
                decreases self.n - self.index,
            {
                if self.index >= self.n {
                    break;
                }
                let cc = self.src.as_str().get_char(self.index);
                if cc == '"' {
                    break;
                }
                self.index = self.index + 1;
            }
            if self.index < self.n {
                let text = self.src.as_str().substring_char(start, self.index);
                let tok = Tokens::STRING(String::from_str(text));
                self.index = self.index + 1;
                return Ok(tok);
            }
            return Err(CompileError { line: self.line, kind: ErrorKind::UnterminatedString });
        }
        if char_is_alphabetic(c) {
            let start = self.index;
            loop
                invariant
                    self.wf(),
                    self.src@ == s,
                    self.n == s.len(),
                    start as int == j,
                    start <= self.index,
                    self.line as int == line_now,
                    ident_end(s, j) == ident_end(s, self.index as int),
                ensures
                    self.wf(),
                    self.src@ == s,
                    self.n == s.len(),
                    start <= self.index,
                    self.line as int == line_now,
                    self.index as int == ident_end(s, j),
                decreases self.n - self.index,
            {
                if self.index >= self.n {
                    break;
                }
                let cc = self.src.as_str().get_char(self.index);
                if !(char_is_alphanumeric(cc) || cc == '_') {
                    break;
                }
                self.index = self.index + 1;
            }
            let text = self.src.as_str().substring_char(start, self.index);
            if str_eq(text, "let") {
                return Ok(Tokens::LET);
            }
            if str_eq(text, "void") {
                return Ok(Tokens::VOID);
            }
            if str_eq(text, "int") {
                return Ok(Tokens::INT);
            }
            if str_eq(text, "return") {
                return Ok(Tokens::RETURN);
            }
            return Ok(Tokens::IDENT(String::from_str(text)));
        }
        if char_is_numeric(c) {
            let start = self.index;
            let mut digits: Vec<char> = Vec::new();
            loop
                invariant
                    self.wf(),
                    self.src@ == s,
                    self.n == s.len(),
                    start as int == j,
                    start <= self.index,
                    self.line as int == line_now,
                    num_end(s, j) == num_end(s, self.index as int),
                    digits@ == strip_underscores(s.subrange(j, self.index as int)),
                ensures
                    self.wf(),
                    self.src@ == s,
                    self.n == s.len(),
                    start <= self.index,
                    self.line as int == line_now,
                    self.index as int == num_end(s, j),
                    digits@ == strip_underscores(s.subrange(j, num_end(s, j))),
                decreases self.n - self.index,
            {
                if self.index >= self.n {
                    break;
                }
                let cc = self.src.as_str().get_char(self.index);
                if !(char_is_numeric(cc) || cc == '_') {
                    break;
                }
                let ghost pos = self.index as int;
                if cc != '_' {
                    digits.push(cc);
                }
                self.index = self.index + 1;
                proof {
                    assert(s.subrange(j, pos + 1) =~= s.subrange(j, pos).push(s[pos]));
                    assert(s.subrange(j, pos + 1).drop_last() =~= s.subrange(j, pos));
                }
            }
            match parse_dec_digits(&digits) {
                Some(v) => {
                    return Ok(Tokens::NUMBER(v));
                },
                None => {
                    let raw = String::from_str(
                        self.src.as_str().substring_char(start, self.index),
                    );
                    return Err(
                        CompileError { line: self.line, kind: ErrorKind::MalformedNumber(raw) },
                    );
                },
            }
        }
        Err(CompileError { line: self.line, kind: ErrorKind::UnknownChar(c) })
    }
}

} // verus!
