//! The lexical categories of the source language.
//!
//! A token is immutable once produced. Full equality is by variant plus
//! payload; the parser mostly needs the weaker "same variant, payload
//! ignored" comparison (`is_same_variant`), used to assert a token's kind.

use vstd::prelude::*;
use crate::decimal::{dec_str_of, i32_to_string};

verus! {

/// A classified lexical unit.
#[allow(non_camel_case_types)]
#[derive(Debug)]
pub enum Tokens {
    LET,
    EQUALS,
    IDENT(String),
    NUMBER(i32),
    STRING(String),
    SEMICOLON,
    PLUS,
    MINUS,
    DOUBLECOL,
    OPENCURLY,
    CLOSECURLY,
    OPENPAREN,
    CLOSEPAREN,
    VOID,
    INT,
    RETURN,
    EOF,
}

/// The spec-level value of a token: payloads as mathematical values.
#[allow(non_camel_case_types)]
pub enum TokenV {
    LET,
    EQUALS,
    IDENT(Seq<char>),
    NUMBER(int),
    STRING(Seq<char>),
    SEMICOLON,
    PLUS,
    MINUS,
    DOUBLECOL,
    OPENCURLY,
    CLOSECURLY,
    OPENPAREN,
    CLOSEPAREN,
    VOID,
    INT,
    RETURN,
    EOF,
}

impl View for Tokens {
    type V = TokenV;

    open spec fn view(&self) -> TokenV {
        match self {
            Tokens::LET => TokenV::LET,
            Tokens::EQUALS => TokenV::EQUALS,
            Tokens::IDENT(s) => TokenV::IDENT(s@),
            Tokens::NUMBER(n) => TokenV::NUMBER(*n as int),
            Tokens::STRING(s) => TokenV::STRING(s@),
            Tokens::SEMICOLON => TokenV::SEMICOLON,
            Tokens::PLUS => TokenV::PLUS,
            Tokens::MINUS => TokenV::MINUS,
            Tokens::DOUBLECOL => TokenV::DOUBLECOL,
            Tokens::OPENCURLY => TokenV::OPENCURLY,
            Tokens::CLOSECURLY => TokenV::CLOSECURLY,
            Tokens::OPENPAREN => TokenV::OPENPAREN,
            Tokens::CLOSEPAREN => TokenV::CLOSEPAREN,
            Tokens::VOID => TokenV::VOID,
            Tokens::INT => TokenV::INT,
            Tokens::RETURN => TokenV::RETURN,
            Tokens::EOF => TokenV::EOF,
        }
    }
}

/// Two token values are of the same lexical category, payloads ignored.
pub open spec fn same_variant(a: TokenV, b: TokenV) -> bool {
    match a {
        TokenV::LET => b is LET,
        TokenV::EQUALS => b is EQUALS,
        TokenV::IDENT(_) => b is IDENT,
        TokenV::NUMBER(_) => b is NUMBER,
        TokenV::STRING(_) => b is STRING,
        TokenV::SEMICOLON => b is SEMICOLON,
        TokenV::PLUS => b is PLUS,
        TokenV::MINUS => b is MINUS,
        TokenV::DOUBLECOL => b is DOUBLECOL,
        TokenV::OPENCURLY => b is OPENCURLY,
        TokenV::CLOSECURLY => b is CLOSECURLY,
        TokenV::OPENPAREN => b is OPENPAREN,
        TokenV::CLOSEPAREN => b is CLOSEPAREN,
        TokenV::VOID => b is VOID,
        TokenV::INT => b is INT,
        TokenV::RETURN => b is RETURN,
        TokenV::EOF => b is EOF,
    }
}

/// Whether two tokens carry the same variant, ignoring any payload.
pub fn is_same_variant(a: &Tokens, b: &Tokens) -> (r: bool)
    ensures
        r == same_variant(a@, b@),
{
    match (a, b) {
        (Tokens::LET, Tokens::LET) => true,
        (Tokens::EQUALS, Tokens::EQUALS) => true,
        (Tokens::IDENT(_), Tokens::IDENT(_)) => true,
        (Tokens::NUMBER(_), Tokens::NUMBER(_)) => true,
        (Tokens::STRING(_), Tokens::STRING(_)) => true,
        (Tokens::SEMICOLON, Tokens::SEMICOLON) => true,
        (Tokens::PLUS, Tokens::PLUS) => true,
        (Tokens::MINUS, Tokens::MINUS) => true,
        (Tokens::DOUBLECOL, Tokens::DOUBLECOL) => true,
        (Tokens::OPENCURLY, Tokens::OPENCURLY) => true,
        (Tokens::CLOSECURLY, Tokens::CLOSECURLY) => true,
        (Tokens::OPENPAREN, Tokens::OPENPAREN) => true,
        (Tokens::CLOSEPAREN, Tokens::CLOSEPAREN) => true,
        (Tokens::VOID, Tokens::VOID) => true,
        (Tokens::INT, Tokens::INT) => true,
        (Tokens::RETURN, Tokens::RETURN) => true,
        (Tokens::EOF, Tokens::EOF) => true,
        _ => false,
    }
}

/// The human-readable description of a token, used in diagnostics.
pub open spec fn tok_text(t: TokenV) -> Seq<char> {
    match t {
        TokenV::NUMBER(n) => dec_str_of(n),
        TokenV::IDENT(s) => "ident "@ + s,
        TokenV::STRING(s) => "string "@ + s,
        TokenV::SEMICOLON => ";"@,
        TokenV::EQUALS => "="@,
        TokenV::LET => "let"@,
        TokenV::EOF => "end of file"@,
        TokenV::PLUS => "+"@,
        TokenV::MINUS => "-"@,
        TokenV::DOUBLECOL => "::"@,
        TokenV::OPENCURLY => "{"@,
        TokenV::CLOSECURLY => "}"@,
        TokenV::CLOSEPAREN => ")"@,
        TokenV::OPENPAREN => "("@,
        TokenV::VOID => "void type"@,
        TokenV::INT => "int type"@,
        TokenV::RETURN => "return "@,
    }
}

/// Renders a token's description for diagnostics.
pub fn tok_to_string(a: &Tokens) -> (r: String)
    ensures
        r@ == tok_text(a@),
{
    match a {
        Tokens::NUMBER(n) => i32_to_string(*n),
        Tokens::IDENT(s) => {
            let mut r = String::from_str("ident ");
            r.append(s.as_str());
            r
        },
        Tokens::STRING(s) => {
            let mut r = String::from_str("string ");
            r.append(s.as_str());
            r
        },
        Tokens::SEMICOLON => String::from_str(";"),
        Tokens::EQUALS => String::from_str("="),
        Tokens::LET => String::from_str("let"),
        Tokens::EOF => String::from_str("end of file"),
        Tokens::PLUS => String::from_str("+"),
        Tokens::MINUS => String::from_str("-"),
        Tokens::DOUBLECOL => String::from_str("::"),
        Tokens::OPENCURLY => String::from_str("{"),
        Tokens::CLOSECURLY => String::from_str("}"),
        Tokens::CLOSEPAREN => String::from_str(")"),
        Tokens::OPENPAREN => String::from_str("("),
        Tokens::VOID => String::from_str("void type"),
        Tokens::INT => String::from_str("int type"),
        Tokens::RETURN => String::from_str("return "),
    }
}

/// Character-by-character string comparison; the result says exactly
/// whether the two views are equal.
pub fn str_eq(a: &str, b: &str) -> (r: bool)
    ensures
        r == (a@ == b@),
{
    let la = a.unicode_len();
    let lb = b.unicode_len();
    if la != lb {
        return false;
    }
    let mut i: usize = 0;
    while i < la
        invariant
            la == a@.len(),
            la == b@.len(),
            i <= la,
            forall|k: int| 0 <= k < i ==> a@[k] == b@[k],
        decreases la - i,
    {
        if a.get_char(i) != b.get_char(i) {
            return false;
        }
        i = i + 1;
    }
    proof {
        assert(a@ =~= b@);
    }
    true
}

} // verus!
