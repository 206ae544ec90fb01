//! The recursive-descent parser: single pass, one token of lookahead, no
//! backtracking.
//!
//! The parser pulls tokens from the scanner on demand, validates the
//! grammar and the simple semantic rules, updates the symbol table, and
//! emits code as a byproduct of recognising each construct. Every fatal
//! condition is a typed error returned up the call chain; on success the
//! emissions form flat function blocks — `begin`/`end` pairs are never
//! interleaved — with raw appends only between them.

use vstd::prelude::*;
use crate::codegen::{gen_text_all, Codegen, GenItem};
use crate::decimal::{dec_str_of, i32_to_string};
use crate::errors::{CompileError, ErrorKind, ErrorKindV};
use crate::lexer::{lemma_scan_progress, scan_at, Lexer, ScanOut};
use crate::symbol_table::{FunctionType, SymbolTable, VariableType, VariableTypeV};
use crate::tokens::{is_same_variant, same_variant, str_eq, tok_text, tok_to_string, TokenV, Tokens};

verus! {

broadcast use crate::codegen::lemma_gen_text_all_push;

/// An emission a statement makes: never a block opener or closer.
pub open spec fn stmt_item(g: GenItem) -> bool {
    ||| g is Declare
    ||| g is Reassign
    ||| g is Call
    ||| g is ReturnStmt
}

/// Every item of `items` is a statement emission.
pub open spec fn stmt_items(items: Seq<GenItem>) -> bool {
    forall|k: int| 0 <= k < items.len() ==> stmt_item(#[trigger] items[k])
}

/// The emissions form a flat sequence of function blocks: a `BeginFn`
/// opens a block only at top level, an `EndFn` closes the one open block,
/// statement emissions stand only inside a block, raw appends only
/// outside, and at the end no block is left open.
pub open spec fn well_formed_blocks(items: Seq<GenItem>, open: bool) -> bool
    decreases items.len(),
{
    if items.len() == 0 {
        !open
    } else {
        match items[0] {
            GenItem::BeginFn { .. } => !open && well_formed_blocks(items.skip(1), true),
            GenItem::EndFn => open && well_formed_blocks(items.skip(1), false),
            GenItem::Raw { .. } => !open && well_formed_blocks(items.skip(1), false),
            _ => open && well_formed_blocks(items.skip(1), true),
        }
    }
}

/// The number of `BeginFn` emissions in `items`.
pub open spec fn count_begin(items: Seq<GenItem>) -> int
    decreases items.len(),
{
    if items.len() == 0 {
        0
    } else {
        (if items[0] is BeginFn {
            1int
        } else {
            0int
        }) + count_begin(items.skip(1))
    }
}

/// The number of `EndFn` emissions in `items`.
pub open spec fn count_end(items: Seq<GenItem>) -> int
    decreases items.len(),
{
    if items.len() == 0 {
        0
    } else {
        (if items[0] is EndFn {
            1int
        } else {
            0int
        }) + count_end(items.skip(1))
    }
}

/// Well-formed blocks pair every `begin_function` with one
/// `end_function`: the two emission counts are equal.
pub proof fn lemma_blocks_balanced(items: Seq<GenItem>)
    requires
        well_formed_blocks(items, false),
    ensures
        count_begin(items) == count_end(items),
{
    lemma_blocks_counts(items, false);
}

proof fn lemma_blocks_counts(items: Seq<GenItem>, open: bool)
    requires
        well_formed_blocks(items, open),
    ensures
        count_end(items) == count_begin(items) + (if open {
            1int
        } else {
            0int
        }),
    decreases items.len(),
{
    if items.len() > 0 {
        match items[0] {
            GenItem::BeginFn { .. } => lemma_blocks_counts(items.skip(1), true),
            GenItem::EndFn => lemma_blocks_counts(items.skip(1), false),
            GenItem::Raw { .. } => lemma_blocks_counts(items.skip(1), false),
            _ => lemma_blocks_counts(items.skip(1), true),
        }
    }
}

/// Concatenating two well-formed top-level emission runs gives a
/// well-formed run.
pub proof fn lemma_wfb_concat(a: Seq<GenItem>, b: Seq<GenItem>, open: bool)
    requires
        well_formed_blocks(a, open),
        well_formed_blocks(b, false),
    ensures
        well_formed_blocks(a + b, open),
    decreases a.len(),
{
    if a.len() == 0 {
        assert(a + b =~= b);
    } else {
        assert((a + b).skip(1) =~= a.skip(1) + b);
        match a[0] {
            GenItem::BeginFn { .. } => lemma_wfb_concat(a.skip(1), b, true),
            GenItem::EndFn => lemma_wfb_concat(a.skip(1), b, false),
            GenItem::Raw { .. } => lemma_wfb_concat(a.skip(1), b, false),
            _ => lemma_wfb_concat(a.skip(1), b, true),
        }
    }
}

/// One function block — `begin`, statement emissions, `end` — is a
/// well-formed top-level run.
pub proof fn lemma_wfb_block(b: GenItem, mid: Seq<GenItem>, e: GenItem)
    requires
        b is BeginFn,
        e is EndFn,
        stmt_items(mid),
    ensures
        well_formed_blocks(seq![b] + mid + seq![e], false),
{
    lemma_wfb_body(mid, e);
    assert((seq![b] + mid + seq![e]).skip(1) =~= mid + seq![e]);
    assert((seq![b] + mid + seq![e])[0] == b);
}

proof fn lemma_wfb_body(mid: Seq<GenItem>, e: GenItem)
    requires
        e is EndFn,
        stmt_items(mid),
    ensures
        well_formed_blocks(mid + seq![e], true),
    decreases mid.len(),
{
    if mid.len() == 0 {
        assert(mid + seq![e] =~= seq![e]);
        assert(well_formed_blocks(seq![e].skip(1), false));
    } else {
        assert((mid + seq![e]).skip(1) =~= mid.skip(1) + seq![e]);
        assert(stmt_item(mid[0]));
        assert(stmt_items(mid.skip(1)));
        lemma_wfb_body(mid.skip(1), e);
    }
}

/// Whether the scan at position `i` yields a token (rather than failing).
pub open spec fn tok_ok(s: Seq<char>, i: int) -> bool {
    scan_at(s, i) is Tok
}

/// The token the scan at position `i` yields (`EOF` where it fails, so a
/// test against any other variant implies the scan succeeded).
pub open spec fn tok_at(s: Seq<char>, i: int) -> TokenV {
    match scan_at(s, i) {
        ScanOut::Tok { t, .. } => t,
        ScanOut::Fail { .. } => TokenV::EOF,
    }
}

/// The cursor position after the scan at position `i`.
pub open spec fn tok_end(s: Seq<char>, i: int) -> int {
    match scan_at(s, i) {
        ScanOut::Tok { end, .. } => end,
        ScanOut::Fail { end, .. } => end,
    }
}

/// The state a parsing step observes and transforms, abstractly: the
/// cursor, the lookahead, the variable namespace, the per-body completion
/// flag, and the emissions so far. (The function namespace is written but
/// never read back in this grammar, so no step's outcome depends on it.)
pub struct ParseSt {
    pub pos: int,
    pub cur: TokenV,
    pub vars: Map<Seq<char>, VariableTypeV>,
    pub has_ret: bool,
    pub trace: Seq<GenItem>,
}

/// The outcome of a parsing step: the state it leaves, or failure. All
/// fatal errors collapse to `Stop`; which error is raised is stated on
/// the parser's own methods.
pub enum StepOut {
    Next(ParseSt),
    Stop,
}

/// Parsing progress of an abstract state: how much input is left,
/// counting the lookahead.
pub open spec fn st_measure(s: Seq<char>, st: ParseSt) -> int {
    2 * (s.len() - st.pos) + (if st.cur is EOF {
        0int
    } else {
        1int
    })
}

/// The abstract state is within the source.
pub open spec fn st_bounds(s: Seq<char>, st: ParseSt) -> bool {
    0 <= st.pos <= s.len()
}

/// Pulling the next token into the lookahead.
pub open spec fn advance_sp(s: Seq<char>, st: ParseSt) -> StepOut {
    match scan_at(s, st.pos) {
        ScanOut::Tok { t, end } => StepOut::Next(ParseSt { pos: end, cur: t, ..st }),
        ScanOut::Fail { .. } => StepOut::Stop,
    }
}

/// Consuming the lookahead when it carries the wanted variant.
pub open spec fn expect_sp(s: Seq<char>, st: ParseSt, want: TokenV) -> StepOut {
    if same_variant(st.cur, want) {
        advance_sp(s, st)
    } else {
        StepOut::Stop
    }
}

/// One `let` statement: `let IDENT = (NUMBER | IDENT) ;`, a declaration
/// emitted and the binding inserted.
pub open spec fn let_sp(s: Seq<char>, st: ParseSt) -> StepOut {
    match expect_sp(s, st, TokenV::LET) {
        StepOut::Next(st1) => match st1.cur {
            TokenV::IDENT(x) => match advance_sp(s, st1) {
                StepOut::Next(st2) => match expect_sp(s, st2, TokenV::EQUALS) {
                    StepOut::Next(st3) => {
                        let rhs = st3.cur;
                        if rhs is NUMBER || (rhs matches TokenV::IDENT(y) && st.vars.contains_key(
                            y,
                        )) {
                            let v = match rhs {
                                TokenV::NUMBER(n) => dec_str_of(n),
                                TokenV::IDENT(y) => y,
                                _ => Seq::<char>::empty(),
                            };
                            match advance_sp(s, st3) {
                                StepOut::Next(st4) => match expect_sp(
                                    s,
                                    st4,
                                    TokenV::SEMICOLON,
                                ) {
                                    StepOut::Next(st5) => StepOut::Next(
                                        ParseSt {
                                            vars: st5.vars.insert(x, VariableTypeV::INT32(v)),
                                            trace: st5.trace.push(
                                                GenItem::Declare { name: x, value: v },
                                            ),
                                            ..st5
                                        },
                                    ),
                                    StepOut::Stop => StepOut::Stop,
                                },
                                StepOut::Stop => StepOut::Stop,
                            }
                        } else {
                            StepOut::Stop
                        }
                    },
                    StepOut::Stop => StepOut::Stop,
                },
                StepOut::Stop => StepOut::Stop,
            },
            _ => StepOut::Stop,
        },
        StepOut::Stop => StepOut::Stop,
    }
}

/// One reassignment tail: `= NUMBER ;` for an already-consumed, declared
/// name, the line emitted.
pub open spec fn reassign_sp(s: Seq<char>, st: ParseSt, name: Seq<char>) -> StepOut {
    match expect_sp(s, st, TokenV::EQUALS) {
        StepOut::Next(st1) => {
            if st.vars.contains_key(name) {
                match st1.cur {
                    TokenV::NUMBER(n) => match advance_sp(s, st1) {
                        StepOut::Next(st2) => match expect_sp(s, st2, TokenV::SEMICOLON) {
                            StepOut::Next(st3) => StepOut::Next(
                                ParseSt {
                                    trace: st3.trace.push(
                                        GenItem::Reassign { name: name, value: dec_str_of(n) },
                                    ),
                                    ..st3
                                },
                            ),
                            StepOut::Stop => StepOut::Stop,
                        },
                        StepOut::Stop => StepOut::Stop,
                    },
                    _ => StepOut::Stop,
                }
            } else {
                StepOut::Stop
            }
        },
        StepOut::Stop => StepOut::Stop,
    }
}

/// One call tail: `( NUMBER ) ;` for the already-consumed builtin name,
/// the call emitted.
pub open spec fn call_sp(s: Seq<char>, st: ParseSt, name: Seq<char>) -> StepOut {
    if name == "putchar"@ {
        match expect_sp(s, st, TokenV::OPENPAREN) {
            StepOut::Next(st1) => match st1.cur {
                TokenV::NUMBER(n) => match advance_sp(s, st1) {
                    StepOut::Next(st2) => match expect_sp(s, st2, TokenV::CLOSEPAREN) {
                        StepOut::Next(st3) => match expect_sp(s, st3, TokenV::SEMICOLON) {
                            StepOut::Next(st4) => StepOut::Next(
                                ParseSt {
                                    trace: st4.trace.push(
                                        GenItem::Call { name: name, arg: dec_str_of(n) },
                                    ),
                                    ..st4
                                },
                            ),
                            StepOut::Stop => StepOut::Stop,
                        },
                        StepOut::Stop => StepOut::Stop,
                    },
                    StepOut::Stop => StepOut::Stop,
                },
                _ => StepOut::Stop,
            },
            StepOut::Stop => StepOut::Stop,
        }
    } else {
        StepOut::Stop
    }
}

/// The raw-append directive: `c_comp_append ( STRING ) ;` (the lookahead
/// still holds the directive's name), the literal appended verbatim.
pub open spec fn cca_sp(s: Seq<char>, st: ParseSt) -> StepOut {
    match advance_sp(s, st) {
        StepOut::Next(st1) => match expect_sp(s, st1, TokenV::OPENPAREN) {
            StepOut::Next(st2) => match st2.cur {
                TokenV::STRING(text) => match advance_sp(s, st2) {
                    StepOut::Next(st3) => match expect_sp(s, st3, TokenV::CLOSEPAREN) {
                        StepOut::Next(st4) => match expect_sp(s, st4, TokenV::SEMICOLON) {
                            StepOut::Next(st5) => StepOut::Next(
                                ParseSt {
                                    trace: st5.trace.push(GenItem::Raw { text: text }),
                                    ..st5
                                },
                            ),
                            StepOut::Stop => StepOut::Stop,
                        },
                        StepOut::Stop => StepOut::Stop,
                    },
                    StepOut::Stop => StepOut::Stop,
                },
                _ => StepOut::Stop,
            },
            StepOut::Stop => StepOut::Stop,
        },
        StepOut::Stop => StepOut::Stop,
    }
}

/// One return statement (the lookahead still holds `return`): the value
/// as the return kind demands, `;`, then the closing `}` as the very next
/// token; the return and the closing `end_function` emitted and the
/// completion flag set.
pub open spec fn return_sp(s: Seq<char>, rt: FunctionType, st: ParseSt) -> StepOut {
    let after_value = match rt {
        FunctionType::INT => match advance_sp(s, st) {
            StepOut::Next(st1) => {
                if st1.cur is NUMBER || (st1.cur matches TokenV::IDENT(y) && st.vars.contains_key(
                    y,
                )) {
                    let v = match st1.cur {
                        TokenV::NUMBER(n) => dec_str_of(n),
                        TokenV::IDENT(y) => y,
                        _ => Seq::<char>::empty(),
                    };
                    StepOut::Next(ParseSt { trace: st1.trace.push(GenItem::ReturnStmt { value: v }), ..st1 })
                } else {
                    StepOut::Stop
                }
            },
            StepOut::Stop => StepOut::Stop,
        },
        FunctionType::VOID => StepOut::Next(
            ParseSt { trace: st.trace.push(GenItem::ReturnStmt { value: Seq::<char>::empty() }), ..st },
        ),
    };
    match after_value {
        StepOut::Next(st2) => match advance_sp(s, st2) {
            StepOut::Next(st3) => match expect_sp(s, st3, TokenV::SEMICOLON) {
                StepOut::Next(st4) => {
                    if st4.cur is CLOSECURLY {
                        StepOut::Next(
                            ParseSt { has_ret: true, trace: st4.trace.push(GenItem::EndFn), ..st4 },
                        )
                    } else {
                        StepOut::Stop
                    }
                },
                StepOut::Stop => StepOut::Stop,
            },
            StepOut::Stop => StepOut::Stop,
        },
        StepOut::Stop => StepOut::Stop,
    }
}

/// A scan-driven step keeps the cursor inside the source and never
/// increases the remaining input; consuming a lookahead other than `EOF`
/// strictly decreases it.
pub proof fn lemma_advance_sp(s: Seq<char>, st: ParseSt)
    requires
        st_bounds(s, st),
    ensures
        match advance_sp(s, st) {
            StepOut::Next(st1) => st_bounds(s, st1) && st_measure(s, st1) <= st_measure(s, st) && (
            !(st.cur is EOF) ==> st_measure(s, st1) < st_measure(s, st)),
            StepOut::Stop => true,
        },
{
    lemma_scan_progress(s, st.pos);
}

pub proof fn lemma_expect_sp(s: Seq<char>, st: ParseSt, want: TokenV)
    requires
        st_bounds(s, st),
    ensures
        match expect_sp(s, st, want) {
            StepOut::Next(st1) => st_bounds(s, st1) && st_measure(s, st1) <= st_measure(s, st) && (
            !(want is EOF) ==> st_measure(s, st1) < st_measure(s, st)),
            StepOut::Stop => true,
        },
{
    lemma_advance_sp(s, st);
}

pub proof fn lemma_let_sp(s: Seq<char>, st: ParseSt)
    requires
        st_bounds(s, st),
    ensures
        match let_sp(s, st) {
            StepOut::Next(st1) => st_bounds(s, st1) && st_measure(s, st1) < st_measure(s, st),
            StepOut::Stop => true,
        },
{
    lemma_expect_sp(s, st, TokenV::LET);
    if let StepOut::Next(st1) = expect_sp(s, st, TokenV::LET) {
        lemma_advance_sp(s, st1);
        if let StepOut::Next(st2) = advance_sp(s, st1) {
            lemma_expect_sp(s, st2, TokenV::EQUALS);
            if let StepOut::Next(st3) = expect_sp(s, st2, TokenV::EQUALS) {
                lemma_advance_sp(s, st3);
                if let StepOut::Next(st4) = advance_sp(s, st3) {
                    lemma_expect_sp(s, st4, TokenV::SEMICOLON);
                }
            }
        }
    }
}

pub proof fn lemma_reassign_sp(s: Seq<char>, st: ParseSt, name: Seq<char>)
    requires
        st_bounds(s, st),
    ensures
        match reassign_sp(s, st, name) {
            StepOut::Next(st1) => st_bounds(s, st1) && st_measure(s, st1) < st_measure(s, st),
            StepOut::Stop => true,
        },
{
    lemma_expect_sp(s, st, TokenV::EQUALS);
    if let StepOut::Next(st1) = expect_sp(s, st, TokenV::EQUALS) {
        lemma_advance_sp(s, st1);
        if let StepOut::Next(st2) = advance_sp(s, st1) {
            lemma_expect_sp(s, st2, TokenV::SEMICOLON);
        }
    }
}

pub proof fn lemma_call_sp(s: Seq<char>, st: ParseSt, name: Seq<char>)
    requires
        st_bounds(s, st),
    ensures
        match call_sp(s, st, name) {
            StepOut::Next(st1) => st_bounds(s, st1) && st_measure(s, st1) < st_measure(s, st),
            StepOut::Stop => true,
        },
{
    lemma_expect_sp(s, st, TokenV::OPENPAREN);
    if let StepOut::Next(st1) = expect_sp(s, st, TokenV::OPENPAREN) {
        lemma_advance_sp(s, st1);
        if let StepOut::Next(st2) = advance_sp(s, st1) {
            lemma_expect_sp(s, st2, TokenV::CLOSEPAREN);
            if let StepOut::Next(st3) = expect_sp(s, st2, TokenV::CLOSEPAREN) {
                lemma_expect_sp(s, st3, TokenV::SEMICOLON);
            }
        }
    }
}

pub proof fn lemma_cca_sp(s: Seq<char>, st: ParseSt)
    requires
        st_bounds(s, st),
    ensures
        match cca_sp(s, st) {
            StepOut::Next(st1) => st_bounds(s, st1) && st_measure(s, st1) < st_measure(s, st),
            StepOut::Stop => true,
        },
{
    lemma_advance_sp(s, st);
    if let StepOut::Next(st1) = advance_sp(s, st) {
        lemma_expect_sp(s, st1, TokenV::OPENPAREN);
        if let StepOut::Next(st2) = expect_sp(s, st1, TokenV::OPENPAREN) {
            lemma_advance_sp(s, st2);
            if let StepOut::Next(st3) = advance_sp(s, st2) {
                lemma_expect_sp(s, st3, TokenV::CLOSEPAREN);
                if let StepOut::Next(st4) = expect_sp(s, st3, TokenV::CLOSEPAREN) {
                    lemma_expect_sp(s, st4, TokenV::SEMICOLON);
                }
            }
        }
    }
}

pub proof fn lemma_return_sp(s: Seq<char>, rt: FunctionType, st: ParseSt)
    requires
        st_bounds(s, st),
    ensures
        match return_sp(s, rt, st) {
            StepOut::Next(st1) => st_bounds(s, st1) && st_measure(s, st1) < st_measure(s, st),
            StepOut::Stop => true,
        },
{
    lemma_advance_sp(s, st);
    let after_value = match rt {
        FunctionType::INT => match advance_sp(s, st) {
            StepOut::Next(st1) => {
                if st1.cur is NUMBER || (st1.cur matches TokenV::IDENT(y) && st.vars.contains_key(
                    y,
                )) {
                    let v = match st1.cur {
                        TokenV::NUMBER(n) => dec_str_of(n),
                        TokenV::IDENT(y) => y,
                        _ => Seq::<char>::empty(),
                    };
                    StepOut::Next(
                        ParseSt { trace: st1.trace.push(GenItem::ReturnStmt { value: v }), ..st1 },
                    )
                } else {
                    StepOut::Stop
                }
            },
            StepOut::Stop => StepOut::Stop,
        },
        FunctionType::VOID => StepOut::Next(
            ParseSt {
                trace: st.trace.push(GenItem::ReturnStmt { value: Seq::<char>::empty() }),
                ..st
            },
        ),
    };
    if let StepOut::Next(st2) = after_value {
        lemma_advance_sp(s, st2);
        if let StepOut::Next(st3) = advance_sp(s, st2) {
            lemma_expect_sp(s, st3, TokenV::SEMICOLON);
        }
    }
}

/// The statement loop: statements until the closing brace, as
/// `Parser::parse_stmt` performs them.
pub open spec fn stmt_loop_sp(s: Seq<char>, rt: FunctionType, st: ParseSt) -> StepOut
    decreases st_measure(s, st),
        when st_bounds(s, st)
        via stmt_loop_sp_decreases
{
    match st.cur {
        TokenV::CLOSECURLY => {
            let st1 = if rt is VOID && !st.has_ret {
                ParseSt {
                    has_ret: true,
                    trace: st.trace.push(GenItem::ReturnStmt { value: Seq::<char>::empty() }),
                    ..st
                }
            } else {
                st
            };
            StepOut::Next(ParseSt { trace: st1.trace.push(GenItem::EndFn), ..st1 })
        },
        TokenV::EOF => StepOut::Stop,
        TokenV::LET => match let_sp(s, st) {
            StepOut::Next(st1) => stmt_loop_sp(s, rt, st1),
            StepOut::Stop => StepOut::Stop,
        },
        TokenV::RETURN => return_sp(s, rt, st),
        TokenV::IDENT(n) => match advance_sp(s, st) {
            StepOut::Next(st1) => match st1.cur {
                TokenV::EQUALS => match reassign_sp(s, st1, n) {
                    StepOut::Next(st2) => stmt_loop_sp(s, rt, st2),
                    StepOut::Stop => StepOut::Stop,
                },
                TokenV::OPENPAREN => match call_sp(s, st1, n) {
                    StepOut::Next(st2) => stmt_loop_sp(s, rt, st2),
                    StepOut::Stop => StepOut::Stop,
                },
                _ => StepOut::Stop,
            },
            StepOut::Stop => StepOut::Stop,
        },
        _ => StepOut::Stop,
    }
}

#[via_fn]
proof fn stmt_loop_sp_decreases(s: Seq<char>, rt: FunctionType, st: ParseSt) {
    lemma_let_sp(s, st);
    lemma_advance_sp(s, st);
    if st.cur is IDENT {
        if let StepOut::Next(st1) = advance_sp(s, st) {
            lemma_reassign_sp(s, st1, st.cur->IDENT_0);
            lemma_call_sp(s, st1, st.cur->IDENT_0);
        }
    }
}

/// The statement loop never moves the cursor backwards and keeps it in
/// the source.
pub proof fn lemma_stmt_loop_sp(s: Seq<char>, rt: FunctionType, st: ParseSt)
    requires
        st_bounds(s, st),
    ensures
        match stmt_loop_sp(s, rt, st) {
            StepOut::Next(st1) => st_bounds(s, st1) && st_measure(s, st1) <= st_measure(s, st),
            StepOut::Stop => true,
        },
    decreases st_measure(s, st),
{
    match st.cur {
        TokenV::LET => {
            lemma_let_sp(s, st);
            if let StepOut::Next(st1) = let_sp(s, st) {
                lemma_stmt_loop_sp(s, rt, st1);
            }
        },
        TokenV::RETURN => {
            lemma_return_sp(s, rt, st);
        },
        TokenV::IDENT(n) => {
            lemma_advance_sp(s, st);
            if let StepOut::Next(st1) = advance_sp(s, st) {
                lemma_reassign_sp(s, st1, n);
                lemma_call_sp(s, st1, n);
                match st1.cur {
                    TokenV::EQUALS => {
                        if let StepOut::Next(st2) = reassign_sp(s, st1, n) {
                            lemma_stmt_loop_sp(s, rt, st2);
                        }
                    },
                    TokenV::OPENPAREN => {
                        if let StepOut::Next(st2) = call_sp(s, st1, n) {
                            lemma_stmt_loop_sp(s, rt, st2);
                        }
                    },
                    _ => {},
                }
            }
        },
        _ => {},
    }
}

/// One function declaration: `IDENT :: (void | int) { <statements> }`,
/// as `Parser::parse_fn_decl` performs it. A void `main` stops the run
/// before anything is emitted.
pub open spec fn fn_decl_sp(s: Seq<char>, st: ParseSt) -> StepOut {
    match st.cur {
        TokenV::IDENT(f) => match advance_sp(s, st) {
            StepOut::Next(st1) => match expect_sp(s, st1, TokenV::DOUBLECOL) {
                StepOut::Next(st2) => {
                    if st2.cur is VOID && f == "main"@ {
                        StepOut::Stop
                    } else if !(st2.cur is VOID || st2.cur is INT) {
                        StepOut::Stop
                    } else {
                        let rt = if st2.cur is VOID {
                            FunctionType::VOID
                        } else {
                            FunctionType::INT
                        };
                        match advance_sp(s, st2) {
                            StepOut::Next(st3) => match expect_sp(s, st3, TokenV::OPENCURLY) {
                                StepOut::Next(st4) => {
                                    let st5 = ParseSt {
                                        has_ret: false,
                                        trace: st4.trace.push(
                                            GenItem::BeginFn { name: f, ret: rt },
                                        ),
                                        ..st4
                                    };
                                    match stmt_loop_sp(s, rt, st5) {
                                        StepOut::Next(st6) => {
                                            if st6.has_ret {
                                                advance_sp(s, st6)
                                            } else {
                                                StepOut::Stop
                                            }
                                        },
                                        StepOut::Stop => StepOut::Stop,
                                    }
                                },
                                StepOut::Stop => StepOut::Stop,
                            },
                            StepOut::Stop => StepOut::Stop,
                        }
                    }
                },
                StepOut::Stop => StepOut::Stop,
            },
            StepOut::Stop => StepOut::Stop,
        },
        _ => StepOut::Stop,
    }
}

pub proof fn lemma_fn_decl_sp(s: Seq<char>, st: ParseSt)
    requires
        st_bounds(s, st),
    ensures
        match fn_decl_sp(s, st) {
            StepOut::Next(st1) => st_bounds(s, st1) && st_measure(s, st1) < st_measure(s, st),
            StepOut::Stop => true,
        },
{
    lemma_advance_sp(s, st);
    if st.cur is IDENT {
        if let StepOut::Next(st1) = advance_sp(s, st) {
            lemma_expect_sp(s, st1, TokenV::DOUBLECOL);
            if let StepOut::Next(st2) = expect_sp(s, st1, TokenV::DOUBLECOL) {
                lemma_advance_sp(s, st2);
                if let StepOut::Next(st3) = advance_sp(s, st2) {
                    lemma_expect_sp(s, st3, TokenV::OPENCURLY);
                    if let StepOut::Next(st4) = expect_sp(s, st3, TokenV::OPENCURLY) {
                        let rt = if st2.cur is VOID {
                            FunctionType::VOID
                        } else {
                            FunctionType::INT
                        };
                        let st5 = ParseSt {
                            has_ret: false,
                            trace: st4.trace.push(
                                GenItem::BeginFn { name: st.cur->IDENT_0, ret: rt },
                            ),
                            ..st4
                        };
                        lemma_stmt_loop_sp(s, rt, st5);
                        if let StepOut::Next(st6) = stmt_loop_sp(s, rt, st5) {
                            lemma_advance_sp(s, st6);
                        }
                    }
                }
            }
        }
    }
}

/// The whole compilation unit: top-level constructs until end of input,
/// as `Parser::parse` performs them. The state a successful run ends in
/// holds, in `trace`, every emission the run made.
pub open spec fn parse_loop_sp(s: Seq<char>, st: ParseSt) -> StepOut
    decreases st_measure(s, st),
        when st_bounds(s, st)
        via parse_loop_sp_decreases
{
    match st.cur {
        TokenV::EOF => StepOut::Next(st),
        TokenV::IDENT(n) => {
            if n == "c_comp_append"@ {
                match cca_sp(s, st) {
                    StepOut::Next(st1) => parse_loop_sp(s, st1),
                    StepOut::Stop => StepOut::Stop,
                }
            } else {
                match fn_decl_sp(s, st) {
                    StepOut::Next(st1) => parse_loop_sp(s, st1),
                    StepOut::Stop => StepOut::Stop,
                }
            }
        },
        _ => StepOut::Stop,
    }
}

#[via_fn]
proof fn parse_loop_sp_decreases(s: Seq<char>, st: ParseSt) {
    lemma_cca_sp(s, st);
    lemma_fn_decl_sp(s, st);
}

/// The whole compilation as one function of the source text: the
/// generated C text where the program is accepted, nothing where it is
/// rejected.
pub open spec fn compile_sp(s: Seq<char>) -> Option<Seq<char>> {
    match scan_at(s, 0) {
        ScanOut::Tok { t, end } => {
            let st0 = ParseSt {
                pos: end,
                cur: t,
                vars: Map::empty(),
                has_ret: false,
                trace: Seq::empty(),
            };
            match parse_loop_sp(s, st0) {
                StepOut::Next(st) => Some(gen_text_all(st.trace)),
                StepOut::Stop => None,
            }
        },
        ScanOut::Fail { .. } => None,
    }
}

/// Idempotence of compilation: what a run emits is a function of the
/// source text alone — nothing nondeterministic leaks into the result —
/// so re-running the compiler on unchanged source produces byte-identical
/// generated output.
pub proof fn lemma_compile_deterministic(a: Seq<char>, b: Seq<char>)
    requires
        a == b,
    ensures
        compile_sp(a) == compile_sp(b),
{
}

/// The parser over one compilation unit.
pub struct Parser {
    lexer: Lexer,
    symbol_table: SymbolTable,
    codegen: Codegen,
    current_token: Tokens,
    has_return: bool,
}

impl Parser {
    /// The source text under compilation.
    pub closed spec fn src(&self) -> Seq<char> {
        self.lexer.src_view()
    }

    /// The scanner cursor: everything before it has been consumed.
    pub closed spec fn pos(&self) -> int {
        self.lexer.pos()
    }

    /// The current line number, for diagnostics.
    pub closed spec fn line_no(&self) -> int {
        self.lexer.line_no()
    }

    /// The one-token lookahead.
    pub closed spec fn cur(&self) -> TokenV {
        self.current_token@
    }

    /// The emissions made so far, in order.
    pub closed spec fn emitted(&self) -> Seq<GenItem> {
        self.codegen@
    }

    /// The accumulated output text: exactly the rendered emissions.
    pub closed spec fn out_text(&self) -> Seq<char> {
        self.codegen.text()
    }

    /// The variable namespace.
    pub closed spec fn vars(&self) -> Map<Seq<char>, VariableTypeV> {
        self.symbol_table.vars_map()
    }

    /// The function namespace.
    pub closed spec fn funcs(&self) -> Map<Seq<char>, FunctionType> {
        self.symbol_table.funcs_map()
    }

    /// Whether the function body being parsed has reached its `return`.
    pub closed spec fn has_ret(&self) -> bool {
        self.has_return
    }

    /// The scanner cursor is in bounds and the buffer matches the
    /// emission trace.
    pub closed spec fn wf(&self) -> bool {
        &&& self.lexer.wf()
        &&& self.codegen.wf()
        &&& self.out_text() == gen_text_all(self.emitted())
    }

    /// Parsing progress: how much input is left, counting the lookahead.
    pub open spec fn pmeasure(&self) -> int {
        2 * (self.src().len() - self.pos()) + (if self.cur() is EOF {
            0int
        } else {
            1int
        })
    }

    /// The parser's abstract state: everything a parsing step observes.
    pub open spec fn state(&self) -> ParseSt {
        ParseSt {
            pos: self.pos(),
            cur: self.cur(),
            vars: self.vars(),
            has_ret: self.has_ret(),
            trace: self.emitted(),
        }
    }

    /// A parser over `source_code`: empty symbol table, empty output,
    /// primed with the first token. Fails exactly when scanning the first
    /// token fails.
    pub fn new(source_code: String) -> (r: Result<Parser, CompileError>)
        requires
            source_code@.len() < usize::MAX,
        ensures
            match scan_at(source_code@, 0) {
                ScanOut::Tok { t, end } => r matches Ok(p) && p.wf() && p.src() == source_code@
                    && p.cur() == t && p.pos() == end && p.emitted() == Seq::<GenItem>::empty()
                    && p.out_text() == Seq::<char>::empty() && p.vars() == Map::<
                    Seq<char>,
                    VariableTypeV,
                >::empty() && p.funcs() == Map::<Seq<char>, FunctionType>::empty() && !p.has_ret(),
                ScanOut::Fail { k, end } => r matches Err(e) && e.kind@ == k,
            },
    {
        proof {
            assert(gen_text_all(Seq::<GenItem>::empty()) == Seq::<char>::empty());
        }
        let mut lexer = Lexer::new(source_code);
        let initial_token = match lexer.next_token() {
            Ok(t) => t,
            Err(e) => {
                return Err(e);
            },
        };
        Ok(
            Parser {
                lexer,
                symbol_table: SymbolTable::new(),
                codegen: Codegen::new(),
                current_token: initial_token,
                has_return: false,
            },
        )
    }

    /// The current lookahead token.
    pub fn current(&self) -> (r: &Tokens)
        ensures
            r@ == self.cur(),
    {
        &self.current_token
    }

    /// Pulls the next token into the lookahead. Fails exactly when the
    /// scan fails; the lookahead is then left in place.
    pub fn advance(&mut self) -> (r: Result<(), CompileError>)
        requires
            old(self).wf(),
        ensures
            final(self).wf(),
            final(self).src() == old(self).src(),
            final(self).emitted() == old(self).emitted(),
            final(self).out_text() == old(self).out_text(),
            final(self).vars() == old(self).vars(),
            final(self).funcs() == old(self).funcs(),
            final(self).has_ret() == old(self).has_ret(),
            final(self).pmeasure() <= old(self).pmeasure(),
            (r is Ok && !(old(self).cur() is EOF)) ==> final(self).pmeasure() < old(self).pmeasure(),
            match scan_at(old(self).src(), old(self).pos()) {
                ScanOut::Tok { t, end } => r is Ok && final(self).cur() == t && final(self).pos()
                    == end,
                ScanOut::Fail { k, end } => r matches Err(e) && e.kind@ == k && e.line as int
                    == final(self).line_no() && final(self).pos() == end && final(self).cur()
                    == old(self).cur(),
            },
            match advance_sp(old(self).src(), old(self).state()) {
                StepOut::Next(st) => r is Ok && final(self).state() == st,
                StepOut::Stop => r is Err,
            },
    {
        proof {
            self.lexer.lemma_pos_in_bounds();
            crate::lexer::lemma_scan_progress(old(self).src(), old(self).pos());
        }
        match self.lexer.next_token() {
            Ok(t) => {
                self.current_token = t;
                Ok(())
            },
            Err(e) => Err(e),
        }
    }

    /// Consumes the lookahead when it carries the expected token's
    /// variant (payloads ignored), and reports what was expected against
    /// what stood there when it does not.
    fn expect(&mut self, expected_tok: &Tokens) -> (r: Result<(), CompileError>)
        requires
            old(self).wf(),
        ensures
            final(self).wf(),
            final(self).src() == old(self).src(),
            final(self).emitted() == old(self).emitted(),
            final(self).out_text() == old(self).out_text(),
            final(self).vars() == old(self).vars(),
            final(self).funcs() == old(self).funcs(),
            final(self).has_ret() == old(self).has_ret(),
            final(self).pmeasure() <= old(self).pmeasure(),
            (r is Ok && !(old(self).cur() is EOF)) ==> final(self).pmeasure() < old(self).pmeasure(),
            !same_variant(old(self).cur(), expected_tok@) ==> (r matches Err(e) && e.kind@
                == (ErrorKindV::Expected {
                expected: tok_text(expected_tok@),
                got: tok_text(old(self).cur()),
            }) && final(self).cur() == old(self).cur() && final(self).pos() == old(self).pos()),
            same_variant(old(self).cur(), expected_tok@) ==> match scan_at(
                old(self).src(),
                old(self).pos(),
            ) {
                ScanOut::Tok { t, end } => r is Ok && final(self).cur() == t && final(self).pos()
                    == end,
                ScanOut::Fail { k, end } => r matches Err(e) && e.kind@ == k && final(self).pos()
                    == end && final(self).cur() == old(self).cur(),
            },
            match expect_sp(old(self).src(), old(self).state(), expected_tok@) {
                StepOut::Next(st) => r is Ok && final(self).state() == st,
                StepOut::Stop => r is Err,
            },
    {
        if is_same_variant(&self.current_token, expected_tok) {
            self.advance()
        } else {
            Err(
                CompileError {
                    line: self.lexer.current_line(),
                    kind: ErrorKind::Expected {
                        expected: tok_to_string(expected_tok),
                        got: tok_to_string(&self.current_token),
                    },
                },
            )
        }
    }

    /// Consumes the lookahead, which must be an identifier, and hands its
    /// text out.
    pub fn consume_ident_value(&mut self) -> (r: Result<String, CompileError>)
        requires
            old(self).wf(),
        ensures
            final(self).wf(),
            final(self).src() == old(self).src(),
            final(self).emitted() == old(self).emitted(),
            final(self).out_text() == old(self).out_text(),
            final(self).vars() == old(self).vars(),
            final(self).funcs() == old(self).funcs(),
            final(self).has_ret() == old(self).has_ret(),
            final(self).pmeasure() <= old(self).pmeasure(),
            r is Ok ==> final(self).pmeasure() < old(self).pmeasure(),
            match old(self).cur() {
                TokenV::IDENT(name) => match scan_at(old(self).src(), old(self).pos()) {
                    ScanOut::Tok { t, end } => r matches Ok(s) && s@ == name && final(self).cur()
                        == t && final(self).pos() == end,
                    ScanOut::Fail { k, end } => r matches Err(e) && e.kind@ == k && final(self).pos() == end && final(self).cur() == old(self).cur(),
                },
                _ => r matches Err(e) && (e.kind@ matches ErrorKindV::Expected { .. }) && final(self).cur() == old(self).cur() && final(self).pos() == old(self).pos(),
            },
            old(self).cur() is IDENT ==> match advance_sp(old(self).src(), old(self).state()) {
                StepOut::Next(st) => r is Ok && final(self).state() == st,
                StepOut::Stop => r is Err,
            },
    {
        let name_opt: Option<String> = match &self.current_token {
            Tokens::IDENT(s) => Some(s.clone()),
            _ => None,
        };
        match name_opt {
            Some(name) => match self.advance() {
                Ok(_) => Ok(name),
                Err(e) => Err(e),
            },
            None => Err(
                CompileError {
                    line: self.lexer.current_line(),
                    kind: ErrorKind::Expected {
                        expected: tok_to_string(&Tokens::IDENT(String::new())),
                        got: tok_to_string(&self.current_token),
                    },
                },
            ),
        }
    }

    /// Parses `let IDENT = (NUMBER | IDENT) ;`, emits the declaration and
    /// binds the variable — accepted exactly when those tokens follow, a
    /// literal right-hand side becoming its canonical decimal text, and an
    /// identifier right-hand side being copied by name provided it already
    /// resolves. Nothing is emitted or bound unless the whole statement is
    /// accepted; an already-declared name is silently overwritten and a
    /// second declaration line emitted.
    fn parse_let_stmt(&mut self) -> (r: Result<(), CompileError>)
        requires
            old(self).wf(),
        ensures
            final(self).wf(),
            final(self).src() == old(self).src(),
            final(self).funcs() == old(self).funcs(),
            final(self).has_ret() == old(self).has_ret(),
            final(self).pmeasure() <= old(self).pmeasure(),
            r is Ok ==> final(self).pmeasure() < old(self).pmeasure(),
            !(r is Ok) ==> final(self).emitted() == old(self).emitted() && final(self).vars()
                == old(self).vars(),
            r is Ok ==> final(self).emitted().len() == old(self).emitted().len() + 1
                && final(self).emitted().drop_last() == old(self).emitted() && stmt_item(
                final(self).emitted().last(),
            ),
            match let_sp(old(self).src(), old(self).state()) {
                StepOut::Next(st) => r is Ok && final(self).state() == st,
                StepOut::Stop => r is Err,
            },
            ({
                let s = old(self).src();
                let p0 = old(self).pos();
                let p1 = tok_end(s, p0);
                let p2 = tok_end(s, p1);
                let p3 = tok_end(s, p2);
                let ok_shape = {
                    &&& old(self).cur() is LET
                    &&& tok_at(s, p0) is IDENT
                    &&& tok_at(s, p1) is EQUALS
                    &&& (tok_at(s, p2) is NUMBER || (tok_at(s, p2) matches TokenV::IDENT(y) && old(
                        self,
                    ).vars().contains_key(y)))
                    &&& tok_at(s, p3) is SEMICOLON
                    &&& tok_ok(s, tok_end(s, p3))
                };
                &&& (r is Ok <==> ok_shape)
                &&& (r is Ok ==> ({
                    let x = tok_at(s, p0)->IDENT_0;
                    let v = match tok_at(s, p2) {
                        TokenV::NUMBER(n) => dec_str_of(n),
                        TokenV::IDENT(y) => y,
                        _ => Seq::<char>::empty(),
                    };
                    &&& final(self).emitted() == old(self).emitted().push(
                        GenItem::Declare { name: x, value: v },
                    )
                    &&& final(self).vars() == old(self).vars().insert(x, VariableTypeV::INT32(v))
                    &&& final(self).cur() == tok_at(s, tok_end(s, p3))
                }))
            }),
    {
        self.expect(&Tokens::LET)?;
        let var_name = self.consume_ident_value()?;
        self.expect(&Tokens::EQUALS)?;
        let var_type: VariableType = match &self.current_token {
            Tokens::NUMBER(n) => VariableType::INT32(i32_to_string(*n)),
            Tokens::IDENT(rhs_name) => match self.symbol_table.get_var(rhs_name.as_str()) {
                Ok(t) => match t {
                    VariableType::INT32(_) => VariableType::INT32(rhs_name.clone()),
                },
                Err(_) => {
                    return Err(
                        CompileError {
                            line: self.lexer.current_line(),
                            kind: ErrorKind::UndeclaredVariable(rhs_name.clone()),
                        },
                    );
                },
            },
            _ => {
                return Err(
                    CompileError {
                        line: self.lexer.current_line(),
                        kind: ErrorKind::ExpectedNumberOrIdent(
                            tok_to_string(&self.current_token),
                        ),
                    },
                );
            },
        };
        self.advance()?;
        self.expect(&Tokens::SEMICOLON)?;
        self.codegen.let_stmt(var_name.as_str(), &var_type);
        self.symbol_table.set_var(var_name, var_type);
        Ok(())
    }

    /// Parses the tail of `IDENT = NUMBER ;` (the identifier is already
    /// consumed and passed as `name`), and emits the reassignment. The
    /// name must already be declared — reassigning an undeclared variable
    /// fails with the undeclared-variable error and emits nothing — and
    /// only a numeric literal is accepted on the right in this construct.
    fn parse_var_reassign(&mut self, name: String) -> (r: Result<(), CompileError>)
        requires
            old(self).wf(),
        ensures
            final(self).wf(),
            final(self).src() == old(self).src(),
            final(self).funcs() == old(self).funcs(),
            final(self).vars() == old(self).vars(),
            final(self).has_ret() == old(self).has_ret(),
            final(self).pmeasure() <= old(self).pmeasure(),
            r is Ok ==> final(self).pmeasure() < old(self).pmeasure(),
            r is Ok ==> final(self).emitted().len() == old(self).emitted().len() + 1
                && final(self).emitted().drop_last() == old(self).emitted() && stmt_item(
                final(self).emitted().last(),
            ),
            match reassign_sp(old(self).src(), old(self).state(), name@) {
                StepOut::Next(st) => r is Ok && final(self).state() == st,
                StepOut::Stop => r is Err,
            },
            ({
                let s = old(self).src();
                let p0 = old(self).pos();
                let p1 = tok_end(s, p0);
                let ok_shape = {
                    &&& old(self).cur() is EQUALS
                    &&& old(self).vars().contains_key(name@)
                    &&& tok_at(s, p0) is NUMBER
                    &&& tok_at(s, p1) is SEMICOLON
                    &&& tok_ok(s, tok_end(s, p1))
                };
                &&& (r is Ok <==> ok_shape)
                &&& (r is Ok ==> final(self).emitted() == old(self).emitted().push(
                    GenItem::Reassign { name: name@, value: dec_str_of(tok_at(s, p0)->NUMBER_0) },
                ) && final(self).cur() == tok_at(s, tok_end(s, p1)))
                &&& ((old(self).cur() is EQUALS && tok_ok(s, p0) && !old(self).vars().contains_key(
                    name@,
                )) ==> (r matches Err(e) && e.kind@ == ErrorKindV::UndeclaredVariable(name@)
                    && final(self).emitted() == old(self).emitted()))
            }),
    {
        self.expect(&Tokens::EQUALS)?;
        let declared = match self.symbol_table.get_var(name.as_str()) {
            Ok(t) => t,
            Err(_) => {
                return Err(
                    CompileError {
                        line: self.lexer.current_line(),
                        kind: ErrorKind::UndeclaredVariable(name),
                    },
                );
            },
        };
        let var_type: VariableType = match declared {
            VariableType::INT32(_) => match &self.current_token {
                Tokens::NUMBER(n) => VariableType::INT32(i32_to_string(*n)),
                _ => {
                    return Err(
                        CompileError {
                            line: self.lexer.current_line(),
                            kind: ErrorKind::ExpectedNumberOrIdent(
                                tok_to_string(&self.current_token),
                            ),
                        },
                    );
                },
            },
        };
        self.codegen.var_reassign(name.as_str(), &var_type);
        self.advance()?;
        self.expect(&Tokens::SEMICOLON)?;
        Ok(())
    }

    /// Parses the tail of a call statement `IDENT ( NUMBER ) ;` (the
    /// callee name is already consumed and passed as `name`), and emits
    /// the call. The one recognised callee is the builtin `putchar`,
    /// taking exactly one numeric literal; any other callee fails with
    /// the unknown-function error.
    fn parse_func_call(&mut self, name: String) -> (r: Result<(), CompileError>)
        requires
            old(self).wf(),
        ensures
            final(self).wf(),
            final(self).src() == old(self).src(),
            final(self).funcs() == old(self).funcs(),
            final(self).vars() == old(self).vars(),
            final(self).has_ret() == old(self).has_ret(),
            final(self).pmeasure() <= old(self).pmeasure(),
            r is Ok ==> final(self).pmeasure() < old(self).pmeasure(),
            r is Ok ==> final(self).emitted().len() == old(self).emitted().len() + 1
                && final(self).emitted().drop_last() == old(self).emitted() && stmt_item(
                final(self).emitted().last(),
            ),
            match call_sp(old(self).src(), old(self).state(), name@) {
                StepOut::Next(st) => r is Ok && final(self).state() == st,
                StepOut::Stop => r is Err,
            },
            ({
                let s = old(self).src();
                let p0 = old(self).pos();
                let p1 = tok_end(s, p0);
                let p2 = tok_end(s, p1);
                let ok_shape = {
                    &&& name@ == "putchar"@
                    &&& old(self).cur() is OPENPAREN
                    &&& tok_at(s, p0) is NUMBER
                    &&& tok_at(s, p1) is CLOSEPAREN
                    &&& tok_at(s, p2) is SEMICOLON
                    &&& tok_ok(s, tok_end(s, p2))
                };
                &&& (r is Ok <==> ok_shape)
                &&& (r is Ok ==> final(self).emitted() == old(self).emitted().push(
                    GenItem::Call { name: name@, arg: dec_str_of(tok_at(s, p0)->NUMBER_0) },
                ) && final(self).cur() == tok_at(s, tok_end(s, p2)))
                &&& (name@ != "putchar"@ ==> (r matches Err(e) && e.kind@
                    == ErrorKindV::UnknownFunction(name@) && final(self).emitted() == old(
                    self,
                ).emitted()))
            }),
    {
        if !str_eq(name.as_str(), "putchar") {
            return Err(
                CompileError {
                    line: self.lexer.current_line(),
                    kind: ErrorKind::UnknownFunction(name),
                },
            );
        }
        self.expect(&Tokens::OPENPAREN)?;
        let value: String = match &self.current_token {
            Tokens::NUMBER(n) => i32_to_string(*n),
            _ => {
                return Err(
                    CompileError {
                        line: self.lexer.current_line(),
                        kind: ErrorKind::ExpectedNumberValue(tok_to_string(&self.current_token)),
                    },
                );
            },
        };
        self.advance()?;
        self.expect(&Tokens::CLOSEPAREN)?;
        self.codegen.function_call(name, value);
        self.expect(&Tokens::SEMICOLON)?;
        Ok(())
    }

    /// Parses the raw-append directive `c_comp_append ( STRING ) ;` (the
    /// lookahead still holds the directive's name), and appends the
    /// string literal verbatim to the output, bypassing the statement and
    /// function machinery. Only a string literal argument is accepted.
    fn parse_c_com_append(&mut self) -> (r: Result<(), CompileError>)
        requires
            old(self).wf(),
        ensures
            final(self).wf(),
            final(self).src() == old(self).src(),
            final(self).funcs() == old(self).funcs(),
            final(self).vars() == old(self).vars(),
            final(self).has_ret() == old(self).has_ret(),
            final(self).pmeasure() <= old(self).pmeasure(),
            (r is Ok && !(old(self).cur() is EOF)) ==> final(self).pmeasure() < old(
                self,
            ).pmeasure(),
            match cca_sp(old(self).src(), old(self).state()) {
                StepOut::Next(st) => r is Ok && final(self).state() == st,
                StepOut::Stop => r is Err,
            },
            ({
                let s = old(self).src();
                let p0 = old(self).pos();
                let p1 = tok_end(s, p0);
                let p2 = tok_end(s, p1);
                let p3 = tok_end(s, p2);
                let ok_shape = {
                    &&& tok_at(s, p0) is OPENPAREN
                    &&& tok_at(s, p1) is STRING
                    &&& tok_at(s, p2) is CLOSEPAREN
                    &&& tok_at(s, p3) is SEMICOLON
                    &&& tok_ok(s, tok_end(s, p3))
                };
                &&& (r is Ok <==> ok_shape)
                &&& (r is Ok ==> final(self).emitted() == old(self).emitted().push(
                    GenItem::Raw { text: tok_at(s, p1)->STRING_0 },
                ) && final(self).cur() == tok_at(s, tok_end(s, p3)))
                &&& (!(r is Ok) ==> final(self).emitted() == old(self).emitted())
            }),
    {
        self.advance()?;
        self.expect(&Tokens::OPENPAREN)?;
        let text: String = match &self.current_token {
            Tokens::STRING(n) => n.clone(),
            _ => {
                return Err(
                    CompileError {
                        line: self.lexer.current_line(),
                        kind: ErrorKind::CCompAppendArg(tok_to_string(&self.current_token)),
                    },
                );
            },
        };
        self.advance()?;
        self.expect(&Tokens::CLOSEPAREN)?;
        self.expect(&Tokens::SEMICOLON)?;
        self.codegen.c_comp_append(text);
        Ok(())
    }

    /// Parses a return statement (the lookahead still holds `return`),
    /// emits it, and closes the function: the very next token after the
    /// `;` must be the closing `}`, else the statement-after-return error
    /// is raised. In a void function the value expression is never
    /// consulted and a bare `return;` is emitted; in an int function the
    /// value must be a numeric literal or a declared variable. On success
    /// the completion flag is set and the closing `end_function` emitted.
    fn parse_return_stmt(&mut self, func_ret_type: FunctionType) -> (r: Result<(), CompileError>)
        requires
            old(self).wf(),
        ensures
            final(self).wf(),
            final(self).src() == old(self).src(),
            final(self).funcs() == old(self).funcs(),
            final(self).vars() == old(self).vars(),
            final(self).pmeasure() <= old(self).pmeasure(),
            r is Ok ==> final(self).pmeasure() < old(self).pmeasure(),
            !(r is Ok) ==> final(self).has_ret() == old(self).has_ret(),
            r is Ok ==> final(self).emitted().len() == old(self).emitted().len() + 2
                && final(self).emitted().drop_last().drop_last() == old(self).emitted()
                && stmt_item(final(self).emitted().drop_last().last())
                && final(self).emitted().last() is EndFn,
            match return_sp(old(self).src(), func_ret_type, old(self).state()) {
                StepOut::Next(st) => r is Ok && final(self).state() == st,
                StepOut::Stop => r is Err,
            },
            ({
                let s = old(self).src();
                let p0 = old(self).pos();
                let p1 = tok_end(s, p0);
                let p2 = tok_end(s, p1);
                match func_ret_type {
                    FunctionType::VOID => {
                        let ok_shape = tok_at(s, p0) is SEMICOLON && tok_at(s, p1) is CLOSECURLY;
                        &&& (r is Ok <==> ok_shape)
                        &&& (r is Ok ==> final(self).emitted() == old(self).emitted().push(
                            GenItem::ReturnStmt { value: Seq::<char>::empty() },
                        ).push(GenItem::EndFn) && final(self).has_ret() && final(self).cur()
                            == tok_at(s, p1))
                        &&& ((tok_at(s, p0) is SEMICOLON && tok_ok(s, p1) && !(tok_at(
                            s,
                            p1,
                        ) is CLOSECURLY)) ==> (r matches Err(e) && e.kind@
                            == ErrorKindV::StatementAfterReturn))
                    },
                    FunctionType::INT => {
                        let v = match tok_at(s, p0) {
                            TokenV::NUMBER(n) => dec_str_of(n),
                            TokenV::IDENT(y) => y,
                            _ => Seq::<char>::empty(),
                        };
                        let ok_shape = {
                            &&& (tok_at(s, p0) is NUMBER || (tok_at(s, p0) matches TokenV::IDENT(y)
                                && old(self).vars().contains_key(y)))
                            &&& tok_at(s, p1) is SEMICOLON
                            &&& tok_at(s, p2) is CLOSECURLY
                        };
                        &&& (r is Ok <==> ok_shape)
                        &&& (r is Ok ==> final(self).emitted() == old(self).emitted().push(
                            GenItem::ReturnStmt { value: v },
                        ).push(GenItem::EndFn) && final(self).has_ret() && final(self).cur()
                            == tok_at(s, p2))
                        &&& ((tok_at(s, p0) is NUMBER && tok_at(s, p1) is SEMICOLON && tok_ok(
                            s,
                            p2,
                        ) && !(tok_at(s, p2) is CLOSECURLY)) ==> (r matches Err(e) && e.kind@
                            == ErrorKindV::StatementAfterReturn))
                    },
                }
            }),
    {
        match func_ret_type {
            FunctionType::INT => {
                self.advance()?;
                let value: String = match &self.current_token {
                    Tokens::NUMBER(n) => i32_to_string(*n),
                    Tokens::IDENT(id) => match self.symbol_table.get_var(id.as_str()) {
                        Ok(t) => match t {
                            VariableType::INT32(_) => id.clone(),
                        },
                        Err(_) => {
                            return Err(
                                CompileError {
                                    line: self.lexer.current_line(),
                                    kind: ErrorKind::UndeclaredVariable(id.clone()),
                                },
                            );
                        },
                    },
                    _ => {
                        return Err(
                            CompileError {
                                line: self.lexer.current_line(),
                                kind: ErrorKind::ExpectedNumberOrIdent(
                                    tok_to_string(&self.current_token),
                                ),
                            },
                        );
                    },
                };
                self.codegen.return_stmt(value);
            },
            FunctionType::VOID => {
                self.codegen.return_stmt(String::new());
            },
        }
        self.advance()?;
        self.expect(&Tokens::SEMICOLON)?;
        match &self.current_token {
            Tokens::CLOSECURLY => {
                self.has_return = true;
                self.codegen.end_function();
                Ok(())
            },
            _ => Err(
                CompileError {
                    line: self.lexer.current_line(),
                    kind: ErrorKind::StatementAfterReturn,
                },
            ),
        }
    }

    /// The statement loop of one function body: `let`, reassignment, call
    /// and return statements until the closing `}`. Reaching the brace in
    /// a void function that has not returned synthesizes the bare
    /// `return;` and sets the completion flag implicitly; reaching end of
    /// input first is an error. The loop ends with the closing
    /// `end_function` emitted and the brace still in the lookahead.
    fn parse_stmt(&mut self, func_ret_type: FunctionType) -> (r: Result<(), CompileError>)
        requires
            old(self).wf(),
        ensures
            final(self).wf(),
            final(self).src() == old(self).src(),
            final(self).funcs() == old(self).funcs(),
            final(self).pmeasure() <= old(self).pmeasure(),
            r is Ok ==> final(self).cur() is CLOSECURLY,
            r is Ok ==> (func_ret_type is VOID ==> final(self).has_ret()),
            r is Ok ==> exists|mid: Seq<GenItem>|
                stmt_items(mid) && final(self).emitted() == old(self).emitted() + mid + seq![
                    GenItem::EndFn,
                ],
            match stmt_loop_sp(old(self).src(), func_ret_type, old(self).state()) {
                StepOut::Next(st) => r is Ok && final(self).state() == st,
                StepOut::Stop => r is Err,
            },
    {
        proof {
            self.lexer.lemma_pos_in_bounds();
        }
        let ghost base = self.emitted();
        let ghost mut mid: Seq<GenItem> = Seq::empty();
        proof {
            assert(base + mid =~= base);
        }
        loop
            invariant
                self.wf(),
                self.src() == old(self).src(),
                self.funcs() == old(self).funcs(),
                base == old(self).emitted(),
                stmt_items(mid),
                self.emitted() == base + mid,
                self.pmeasure() <= old(self).pmeasure(),
                0 <= self.pos() <= self.src().len(),
                stmt_loop_sp(old(self).src(), func_ret_type, old(self).state()) == stmt_loop_sp(
                    old(self).src(),
                    func_ret_type,
                    self.state(),
                ),
            decreases self.pmeasure(),
        {
            match &self.current_token {
                Tokens::CLOSECURLY => {
                    if !self.has_return {
                        let is_void = match func_ret_type {
                            FunctionType::VOID => true,
                            FunctionType::INT => false,
                        };
                        if is_void {
                            self.codegen.return_stmt(String::new());
                            self.has_return = true;
                            proof {
                                mid = mid.push(
                                    GenItem::ReturnStmt { value: Seq::<char>::empty() },
                                );
                                assert(self.emitted() =~= base + mid);
                            }
                        }
                    }
                    self.codegen.end_function();
                    proof {
                        assert(self.emitted() =~= base + mid + seq![GenItem::EndFn]);
                        assert(stmt_items(mid) && self.emitted() == old(self).emitted() + mid
                            + seq![GenItem::EndFn]);
                    }
                    return Ok(());
                },
                Tokens::EOF => {
                    return Err(
                        CompileError {
                            line: self.lexer.current_line(),
                            kind: ErrorKind::UnexpectedEof,
                        },
                    );
                },
                Tokens::LET => {
                    self.parse_let_stmt()?;
                    proof {
                        mid = mid.push(self.emitted().last());
                        assert(self.emitted() =~= base + mid);
                        self.lexer.lemma_pos_in_bounds();
                    }
                },
                Tokens::RETURN => {
                    self.parse_return_stmt(func_ret_type)?;
                    proof {
                        mid = mid.push(self.emitted().drop_last().last());
                        assert(self.emitted().drop_last() =~= base + mid);
                        assert(self.emitted() =~= self.emitted().drop_last().push(
                            self.emitted().last(),
                        ));
                        assert(self.emitted() =~= base + mid + seq![GenItem::EndFn]);
                        assert(stmt_items(mid) && self.emitted() == old(self).emitted() + mid
                            + seq![GenItem::EndFn]);
                    }
                    return Ok(());
                },
                Tokens::IDENT(name) => {
                    let action_name = name.clone();
                    self.advance()?;
                    match &self.current_token {
                        Tokens::EQUALS => {
                            self.parse_var_reassign(action_name)?;
                        },
                        Tokens::OPENPAREN => {
                            self.parse_func_call(action_name)?;
                        },
                        _ => {
                            return Err(
                                CompileError {
                                    line: self.lexer.current_line(),
                                    kind: ErrorKind::ExpectedEqOrParen(
                                        tok_to_string(&self.current_token),
                                    ),
                                },
                            );
                        },
                    }
                    proof {
                        mid = mid.push(self.emitted().last());
                        assert(self.emitted() =~= base + mid);
                        self.lexer.lemma_pos_in_bounds();
                    }
                },
                _ => {
                    return Err(
                        CompileError {
                            line: self.lexer.current_line(),
                            kind: ErrorKind::UnexpectedInFunction(
                                tok_to_string(&self.current_token),
                            ),
                        },
                    );
                },
            }
        }
    }

    /// Parses a function declaration `IDENT :: (void | int) { ... }`:
    /// rejects a void `main` before anything of the body is parsed or
    /// emitted, opens the emitted function, registers it in the symbol
    /// table, parses the body — which must reach a `return` — and
    /// consumes the closing brace. On success exactly one function block
    /// is appended to the output.
    fn parse_fn_decl(&mut self) -> (r: Result<(), CompileError>)
        requires
            old(self).wf(),
        ensures
            final(self).wf(),
            final(self).src() == old(self).src(),
            final(self).pmeasure() <= old(self).pmeasure(),
            r is Ok ==> final(self).pmeasure() < old(self).pmeasure(),
            r is Ok ==> exists|blk: Seq<GenItem>|
                well_formed_blocks(blk, false) && blk.len() > 0 && final(self).emitted() == old(
                    self,
                ).emitted() + blk,
            match fn_decl_sp(old(self).src(), old(self).state()) {
                StepOut::Next(st) => r is Ok && final(self).state() == st,
                StepOut::Stop => r is Err,
            },
            r is Ok ==> ({
                let s = old(self).src();
                let p0 = old(self).pos();
                let p1 = tok_end(s, p0);
                let rt = if tok_at(s, p1) is VOID {
                    FunctionType::VOID
                } else {
                    FunctionType::INT
                };
                let f = old(self).cur()->IDENT_0;
                &&& old(self).cur() is IDENT
                &&& exists|mid: Seq<GenItem>|
                    stmt_items(mid) && final(self).emitted() == old(self).emitted() + seq![
                        GenItem::BeginFn { name: f, ret: rt },
                    ] + mid + seq![GenItem::EndFn]
                &&& final(self).funcs() == old(self).funcs().insert(f, rt)
                &&& final(self).has_ret()
            }),
            ({
                let s = old(self).src();
                let p0 = old(self).pos();
                let p1 = tok_end(s, p0);
                (old(self).cur() matches TokenV::IDENT(f) && f == "main"@ && tok_at(
                    s,
                    p0,
                ) is DOUBLECOL && tok_at(s, p1) is VOID) ==> (r matches Err(e) && e.kind@
                    == ErrorKindV::MainMustReturnInt && final(self).emitted() == old(self).emitted()
                    && final(self).vars() == old(self).vars() && final(self).funcs() == old(
                    self,
                ).funcs())
            }),
    {
        let func_name = self.consume_ident_value()?;
        self.expect(&Tokens::DOUBLECOL)?;
        let is_void: bool = match &self.current_token {
            Tokens::VOID => true,
            Tokens::INT => false,
            _ => {
                return Err(
                    CompileError {
                        line: self.lexer.current_line(),
                        kind: ErrorKind::UnknownReturnType(tok_to_string(&self.current_token)),
                    },
                );
            },
        };
        let func_ret_type = if is_void {
            if str_eq(func_name.as_str(), "main") {
                return Err(
                    CompileError {
                        line: self.lexer.current_line(),
                        kind: ErrorKind::MainMustReturnInt,
                    },
                );
            }
            FunctionType::VOID
        } else {
            FunctionType::INT
        };
        self.advance()?;
        self.expect(&Tokens::OPENCURLY)?;
        let ghost before = self.emitted();
        self.codegen.start_function(func_name.as_str(), &func_ret_type);
        self.symbol_table.set_func(func_name, func_ret_type);
        self.has_return = false;
        self.parse_stmt(func_ret_type)?;
        if !self.has_return {
            return Err(
                CompileError {
                    line: self.lexer.current_line(),
                    kind: ErrorKind::MissingReturn,
                },
            );
        }
        self.advance()?;
        proof {
            let ghost b = GenItem::BeginFn {
                name: old(self).cur()->IDENT_0,
                ret: func_ret_type,
            };
            let mid = choose|mid: Seq<GenItem>|
                stmt_items(mid) && self.emitted() == before.push(b) + mid + seq![GenItem::EndFn];
            assert(before.push(b) + mid + seq![GenItem::EndFn] =~= before + (seq![b] + mid + seq![
                GenItem::EndFn,
            ]));
            lemma_wfb_block(b, mid, GenItem::EndFn);
        }
        Ok(())
    }

    /// Parses the whole compilation unit: top-level constructs until the
    /// end of input. A leading `c_comp_append` identifier is the
    /// raw-append directive; any other identifier opens a function
    /// declaration; anything else is rejected. On success the emissions
    /// appended form a flat, fully closed run of function blocks with raw
    /// appends only between them.
    pub fn parse(&mut self) -> (r: Result<(), CompileError>)
        requires
            old(self).wf(),
        ensures
            final(self).wf(),
            final(self).src() == old(self).src(),
            final(self).out_text() == gen_text_all(final(self).emitted()),
            r is Ok ==> final(self).cur() is EOF,
            r is Ok ==> exists|ext: Seq<GenItem>|
                well_formed_blocks(ext, false) && final(self).emitted() == old(self).emitted()
                    + ext,
            match parse_loop_sp(old(self).src(), old(self).state()) {
                StepOut::Next(st) => r is Ok && final(self).state() == st,
                StepOut::Stop => r is Err,
            },
    {
        proof {
            self.lexer.lemma_pos_in_bounds();
        }
        let ghost base = self.emitted();
        let ghost mut ext: Seq<GenItem> = Seq::empty();
        proof {
            assert(base + ext =~= base);
        }
        loop
            invariant
                self.wf(),
                self.src() == old(self).src(),
                base == old(self).emitted(),
                well_formed_blocks(ext, false),
                self.emitted() == base + ext,
                0 <= self.pos() <= self.src().len(),
                parse_loop_sp(old(self).src(), old(self).state()) == parse_loop_sp(
                    old(self).src(),
                    self.state(),
                ),
            decreases self.pmeasure(),
        {
            let is_cca: bool = match &self.current_token {
                Tokens::IDENT(n) => str_eq(n.as_str(), "c_comp_append"),
                _ => false,
            };
            match &self.current_token {
                Tokens::EOF => {
                    return Ok(());
                },
                Tokens::IDENT(_) => {
                    if is_cca {
                        let ghost s0 = self.src();
                        let ghost pc = self.pos();
                        let ghost prev = self.emitted();
                        self.parse_c_com_append()?;
                        proof {
                            let raw = GenItem::Raw {
                                text: tok_at(s0, tok_end(s0, pc))->STRING_0,
                            };
                            assert(self.emitted() == prev.push(raw));
                            assert(seq![raw].skip(1) =~= Seq::<GenItem>::empty());
                            assert(well_formed_blocks(Seq::<GenItem>::empty(), false));
                            assert(seq![raw][0] == raw);
                            assert(well_formed_blocks(seq![raw], false));
                            lemma_wfb_concat(ext, seq![raw], false);
                            ext = ext + seq![raw];
                            assert(self.emitted() =~= base + ext);
                            self.lexer.lemma_pos_in_bounds();
                        }
                    } else {
                        let ghost prev = self.emitted();
                        self.parse_fn_decl()?;
                        proof {
                            let blk = choose|blk: Seq<GenItem>|
                                well_formed_blocks(blk, false) && blk.len() > 0 && self.emitted()
                                    == prev + blk;
                            lemma_wfb_concat(ext, blk, false);
                            ext = ext + blk;
                            assert(self.emitted() =~= base + ext);
                            self.lexer.lemma_pos_in_bounds();
                        }
                    }
                },
                _ => {
                    return Err(
                        CompileError {
                            line: self.lexer.current_line(),
                            kind: ErrorKind::UnexpectedGlobal(tok_to_string(&self.current_token)),
                        },
                    );
                },
            }
        }
    }

    /// Borrows the generated output text, ready to be written to the
    /// output artifact after a successful parse.
    pub fn output(&self) -> (r: &String)
        ensures
            r@ == self.out_text(),
    {
        self.codegen.output()
    }
}

/// Compiles one whole source text to C text: scanner, parser and code
/// generator in a single call. The result is exactly `compile_sp` of the
/// source, so equal sources always compile to equal output.
pub fn compile(source_code: String) -> (r: Result<String, CompileError>)
    requires
        source_code@.len() < usize::MAX,
    ensures
        match compile_sp(source_code@) {
            Some(text) => r matches Ok(out) && out@ == text,
            None => r is Err,
        },
{
    let mut parser = match Parser::new(source_code) {
        Ok(p) => p,
        Err(e) => {
            return Err(e);
        },
    };
    match parser.parse() {
        Ok(()) => Ok(parser.output().clone()),
        Err(e) => Err(e),
    }
}

} // verus!
