use edc::codegen::Codegen;
use edc::decimal::{i32_to_string, parse_dec_digits};
use edc::errors::ErrorKind;
use edc::lexer::Lexer;
use edc::symbol_table::{FunctionType, SymbolTable, VariableType};
use edc::tokens::{is_same_variant, str_eq, tok_to_string, Tokens};

#[test]
fn decimal_rendering() {
    assert_eq!(i32_to_string(0), "0");
    assert_eq!(i32_to_string(42), "42");
    assert_eq!(i32_to_string(-7), "-7");
    assert_eq!(i32_to_string(2147483647), "2147483647");
    assert_eq!(i32_to_string(-2147483648), "-2147483648");
    assert_eq!(i32_to_string(1000), "1000");
}

#[test]
fn decimal_parsing() {
    assert_eq!(parse_dec_digits(&vec!['4', '2']), Some(42));
    assert_eq!(parse_dec_digits(&vec!['0', '0', '7']), Some(7));
    assert_eq!(parse_dec_digits(&vec!['2', '1', '4', '7', '4', '8', '3', '6', '4', '7']), Some(2147483647));
    assert_eq!(parse_dec_digits(&vec!['2', '1', '4', '7', '4', '8', '3', '6', '4', '8']), None);
    assert_eq!(parse_dec_digits(&vec!['x']), None);
}

#[test]
fn string_comparison() {
    assert!(str_eq("", ""));
    assert!(str_eq("putchar", "putchar"));
    assert!(!str_eq("a", "b"));
    assert!(!str_eq("ab", "a"));
}

#[test]
fn token_variant_comparison() {
    assert!(is_same_variant(
        &Tokens::IDENT("a".to_string()),
        &Tokens::IDENT("b".to_string())
    ));
    assert!(is_same_variant(&Tokens::NUMBER(1), &Tokens::NUMBER(2)));
    assert!(!is_same_variant(&Tokens::LET, &Tokens::EQUALS));
    assert!(!is_same_variant(&Tokens::IDENT("let".to_string()), &Tokens::LET));
}

#[test]
fn token_descriptions() {
    assert_eq!(tok_to_string(&Tokens::NUMBER(-12)), "-12");
    assert_eq!(tok_to_string(&Tokens::IDENT("ab".to_string())), "ident ab");
    assert_eq!(tok_to_string(&Tokens::EOF), "end of file");
    assert_eq!(tok_to_string(&Tokens::DOUBLECOL), "::");
}

#[test]
fn lexer_token_stream() {
    let mut lx = Lexer::new("let x = 5;".to_string());
    assert!(matches!(lx.next_token(), Ok(Tokens::LET)));
    match lx.next_token() {
        Ok(Tokens::IDENT(s)) => assert_eq!(s, "x"),
        other => panic!("unexpected token: {:?}", other),
    }
    assert!(matches!(lx.next_token(), Ok(Tokens::EQUALS)));
    assert!(matches!(lx.next_token(), Ok(Tokens::NUMBER(5))));
    assert!(matches!(lx.next_token(), Ok(Tokens::SEMICOLON)));
    // idempotent at end of input
    assert!(matches!(lx.next_token(), Ok(Tokens::EOF)));
    assert!(matches!(lx.next_token(), Ok(Tokens::EOF)));
}

#[test]
fn lexer_keywords_and_punctuation() {
    let mut lx = Lexer::new("void int return :: ( ) { } + - \"hi\"".to_string());
    assert!(matches!(lx.next_token(), Ok(Tokens::VOID)));
    assert!(matches!(lx.next_token(), Ok(Tokens::INT)));
    assert!(matches!(lx.next_token(), Ok(Tokens::RETURN)));
    assert!(matches!(lx.next_token(), Ok(Tokens::DOUBLECOL)));
    assert!(matches!(lx.next_token(), Ok(Tokens::OPENPAREN)));
    assert!(matches!(lx.next_token(), Ok(Tokens::CLOSEPAREN)));
    assert!(matches!(lx.next_token(), Ok(Tokens::OPENCURLY)));
    assert!(matches!(lx.next_token(), Ok(Tokens::CLOSECURLY)));
    assert!(matches!(lx.next_token(), Ok(Tokens::PLUS)));
    assert!(matches!(lx.next_token(), Ok(Tokens::MINUS)));
    match lx.next_token() {
        Ok(Tokens::STRING(s)) => assert_eq!(s, "hi"),
        other => panic!("unexpected token: {:?}", other),
    }
}

#[test]
fn lexer_keyword_prefix_is_identifier() {
    let mut lx = Lexer::new("lettuce".to_string());
    match lx.next_token() {
        Ok(Tokens::IDENT(s)) => assert_eq!(s, "lettuce"),
        other => panic!("unexpected token: {:?}", other),
    }
}

#[test]
fn lexer_counts_lines() {
    let mut lx = Lexer::new("let\n\nlet @".to_string());
    assert!(matches!(lx.next_token(), Ok(Tokens::LET)));
    assert!(matches!(lx.next_token(), Ok(Tokens::LET)));
    let err = lx.next_token().unwrap_err();
    assert_eq!(err.line, 3);
    assert!(matches!(err.kind, ErrorKind::UnknownChar('@')));
}

#[test]
fn symbol_table_variables() {
    let mut table = SymbolTable::new();
    let missing = table.get_var("x").unwrap_err();
    assert_eq!(missing, "Variable 'x' not in scope");
    table.set_var("x".to_string(), VariableType::INT32("5".to_string()));
    match table.get_var("x").unwrap() {
        VariableType::INT32(v) => assert_eq!(v, "5"),
    }
    // last write wins
    table.set_var("x".to_string(), VariableType::INT32("9".to_string()));
    match table.get_var("x").unwrap() {
        VariableType::INT32(v) => assert_eq!(v, "9"),
    }
}

#[test]
fn symbol_table_functions() {
    let mut table = SymbolTable::new();
    let missing = table.get_func("f").unwrap_err();
    assert_eq!(missing, "Function 'f' is not defined");
    table.set_func("f".to_string(), FunctionType::VOID);
    assert!(matches!(table.get_func("f").unwrap(), FunctionType::VOID));
    table.set_func("f".to_string(), FunctionType::INT);
    assert!(matches!(table.get_func("f").unwrap(), FunctionType::INT));
}

#[test]
fn codegen_fragments() {
    let mut cg = Codegen::new();
    cg.start_function("f", &FunctionType::VOID);
    cg.let_stmt("x", &VariableType::INT32("3".to_string()));
    cg.var_reassign("x", &VariableType::INT32("4".to_string()));
    cg.function_call("putchar".to_string(), "65".to_string());
    cg.return_stmt(String::new());
    cg.end_function();
    cg.c_comp_append("tail".to_string());
    assert_eq!(
        cg.output().as_str(),
        "void f() {\n\tint x = 3;\n\tx = 4;\n\tputchar(65);\n\treturn ;\n}\ntail\n"
    );
}

#[test]
fn codegen_int_function_header() {
    let mut cg = Codegen::new();
    cg.start_function("main", &FunctionType::INT);
    cg.return_stmt("0".to_string());
    cg.end_function();
    assert_eq!(cg.output().as_str(), "int main() {\n\treturn 0;\n}\n");
}
