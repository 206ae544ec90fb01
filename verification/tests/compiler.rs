use edc::errors::ErrorKind;
use edc::parser::Parser;

fn compile(source: &str) -> Result<String, edc::errors::CompileError> {
    let mut parser = Parser::new(source.to_string())?;
    parser.parse()?;
    Ok(parser.output().clone())
}

#[test]
fn simple_int_main() {
    let out = compile("main :: int { let x = 12; return x; }").unwrap();
    assert_eq!(out, "int main() {\n\tint x = 12;\n\treturn x;\n}\n");
    assert!(out.contains("int x = 12;"));
    assert!(out.contains("return x;"));
}

#[test]
fn begin_end_pairs_match_declarations() {
    let src = "f :: void { return; } c_comp_append(\"// glue\"); main :: int { return 0; }";
    let out = compile(src).unwrap();
    assert_eq!(
        out,
        "void f() {\n\treturn ;\n}\n// glue\nint main() {\n\treturn 0;\n}\n"
    );
    assert_eq!(out.matches("() {").count(), 2);
    assert_eq!(out.matches('}').count(), 2);
}

#[test]
fn reassign_declared_variable() {
    let out = compile("main :: int { let x = 1; x = 2; return x; }").unwrap();
    assert_eq!(out, "int main() {\n\tint x = 1;\n\tx = 2;\n\treturn x;\n}\n");
}

#[test]
fn reassign_undeclared_fails_without_output_line() {
    let mut parser = Parser::new("main :: int { y = 5; return 0; }".to_string()).unwrap();
    let err = parser.parse().unwrap_err();
    match err.kind {
        ErrorKind::UndeclaredVariable(name) => assert_eq!(name, "y"),
        other => panic!("wrong error kind: {:?}", other),
    }
    // the function was opened, but no line was emitted for the reassignment
    assert_eq!(parser.output().as_str(), "int main() {\n");
}

#[test]
fn void_return_then_statement_fails() {
    let err = compile("f :: void { return; let x = 1; }").unwrap_err();
    assert!(matches!(err.kind, ErrorKind::StatementAfterReturn));
}

#[test]
fn void_return_then_brace_succeeds() {
    let out = compile("f :: void { return; }").unwrap();
    assert_eq!(out, "void f() {\n\treturn ;\n}\n");
}

#[test]
fn void_main_rejected_before_body() {
    let mut parser = Parser::new("main :: void { }".to_string()).unwrap();
    let err = parser.parse().unwrap_err();
    assert!(matches!(err.kind, ErrorKind::MainMustReturnInt));
    assert_eq!(parser.output().as_str(), "");
}

#[test]
fn c_comp_append_is_verbatim() {
    let out = compile("c_comp_append(\"int z = 9;\");").unwrap();
    assert_eq!(out, "int z = 9;\n");
}

#[test]
fn c_comp_append_between_functions() {
    let src = "a :: int { return 1; } c_comp_append(\"int z = 9;\"); b :: int { return 2; }";
    let out = compile(src).unwrap();
    assert_eq!(
        out,
        "int a() {\n\treturn 1;\n}\nint z = 9;\nint b() {\n\treturn 2;\n}\n"
    );
}

#[test]
fn recompilation_is_byte_identical() {
    let src = "f :: void { return; } c_comp_append(\"// x\"); main :: int { let a = 3; a = 4; putchar(65); return a; }";
    let first = compile(src).unwrap();
    let second = compile(src).unwrap();
    assert_eq!(first, second);
}

#[test]
fn putchar_call() {
    let out = compile("main :: int { putchar(65); return 0; }").unwrap();
    assert_eq!(out, "int main() {\n\tputchar(65);\n\treturn 0;\n}\n");
}

#[test]
fn unknown_callee_rejected() {
    let err = compile("main :: int { foo(1); return 0; }").unwrap_err();
    match err.kind {
        ErrorKind::UnknownFunction(name) => assert_eq!(name, "foo"),
        other => panic!("wrong error kind: {:?}", other),
    }
}

#[test]
fn let_copies_by_name() {
    let out = compile("main :: int { let x = 1; let y = x; return y; }").unwrap();
    assert_eq!(out, "int main() {\n\tint x = 1;\n\tint y = x;\n\treturn y;\n}\n");
}

#[test]
fn let_redeclaration_emits_twice() {
    let out = compile("main :: int { let x = 1; let x = 2; return x; }").unwrap();
    assert_eq!(out, "int main() {\n\tint x = 1;\n\tint x = 2;\n\treturn x;\n}\n");
}

#[test]
fn let_undeclared_rhs_rejected() {
    let err = compile("main :: int { let x = nope; return 0; }").unwrap_err();
    match err.kind {
        ErrorKind::UndeclaredVariable(name) => assert_eq!(name, "nope"),
        other => panic!("wrong error kind: {:?}", other),
    }
}

#[test]
fn number_with_underscores() {
    let out = compile("main :: int { let x = 1_000; return x; }").unwrap();
    assert_eq!(out, "int main() {\n\tint x = 1000;\n\treturn x;\n}\n");
}

#[test]
fn overflowing_number_is_lexical_error() {
    let err = compile("main :: int { let x = 99999999999; return x; }").unwrap_err();
    match err.kind {
        ErrorKind::MalformedNumber(text) => assert_eq!(text, "99999999999"),
        other => panic!("wrong error kind: {:?}", other),
    }
}

#[test]
fn unknown_character_reports_line() {
    let err = compile("\n@").unwrap_err();
    assert_eq!(err.line, 2);
    assert!(matches!(err.kind, ErrorKind::UnknownChar('@')));
}

#[test]
fn lone_colon_rejected() {
    let err = compile("f : void { return; }").unwrap_err();
    assert!(matches!(err.kind, ErrorKind::LoneColon));
}

#[test]
fn unterminated_string_rejected() {
    let err = compile("c_comp_append(\"oops").unwrap_err();
    assert!(matches!(err.kind, ErrorKind::UnterminatedString));
}

#[test]
fn missing_return_in_int_function() {
    let err = compile("main :: int { let x = 1; }").unwrap_err();
    assert!(matches!(err.kind, ErrorKind::MissingReturn));
}

#[test]
fn void_body_synthesizes_return() {
    let out = compile("f :: void { }").unwrap();
    assert_eq!(out, "void f() {\n\treturn ;\n}\n");
}

#[test]
fn eof_before_closing_brace() {
    let err = compile("main :: int { let x = 1;").unwrap_err();
    assert!(matches!(err.kind, ErrorKind::UnexpectedEof));
}

#[test]
fn unknown_return_type_rejected() {
    let err = compile("f :: char { return; }").unwrap_err();
    assert!(matches!(err.kind, ErrorKind::UnknownReturnType(_)));
}

#[test]
fn return_undeclared_identifier_rejected() {
    let err = compile("main :: int { return z; }").unwrap_err();
    match err.kind {
        ErrorKind::UndeclaredVariable(name) => assert_eq!(name, "z"),
        other => panic!("wrong error kind: {:?}", other),
    }
}

#[test]
fn statement_after_return_in_int_function() {
    let err = compile("main :: int { return 0; let x = 1; }").unwrap_err();
    assert!(matches!(err.kind, ErrorKind::StatementAfterReturn));
}

#[test]
fn garbage_at_top_level_rejected() {
    let err = compile("}").unwrap_err();
    assert!(matches!(err.kind, ErrorKind::UnexpectedGlobal(_)));
}

#[test]
fn empty_source_compiles_to_nothing() {
    let out = compile("").unwrap();
    assert_eq!(out, "");
}

#[test]
fn negative_literal_is_not_a_number() {
    // `-5` lexes as MINUS then NUMBER(5); the parser accepts neither here
    let err = compile("main :: int { let x = -5; return x; }").unwrap_err();
    assert!(matches!(err.kind, ErrorKind::ExpectedNumberOrIdent(_)));
}

#[test]
fn missing_brace_after_return_type_reports_expectation() {
    let err = compile("f :: void return; }").unwrap_err();
    match err.kind {
        ErrorKind::Expected { expected, got } => {
            assert_eq!(expected, "{");
            assert_eq!(got, "return ");
        }
        other => panic!("wrong error kind: {:?}", other),
    }
}

#[test]
fn c_comp_append_requires_string_argument() {
    let err = compile("c_comp_append(5);").unwrap_err();
    assert!(matches!(err.kind, ErrorKind::CCompAppendArg(_)));
}

#[test]
fn bare_identifier_statement_rejected() {
    let err = compile("main :: int { x; return 0; }").unwrap_err();
    assert!(matches!(err.kind, ErrorKind::ExpectedEqOrParen(_)));
}

#[test]
fn putchar_requires_number_argument() {
    let err = compile("main :: int { putchar(x); return 0; }").unwrap_err();
    assert!(matches!(err.kind, ErrorKind::ExpectedNumberValue(_)));
}

#[test]
fn stray_semicolon_in_function_rejected() {
    let err = compile("main :: int { ; return 0; }").unwrap_err();
    assert!(matches!(err.kind, ErrorKind::UnexpectedInFunction(_)));
}

#[test]
fn int_return_requires_value() {
    let err = compile("main :: int { return let; }").unwrap_err();
    assert!(matches!(err.kind, ErrorKind::ExpectedNumberOrIdent(_)));
}

#[test]
fn largest_literal_compiles() {
    let out = compile("main :: int { let x = 2147483647; return x; }").unwrap();
    assert_eq!(out, "int main() {\n\tint x = 2147483647;\n\treturn x;\n}\n");
}

#[test]
fn just_over_largest_literal_rejected() {
    let err = compile("main :: int { let x = 2147483648; return x; }").unwrap_err();
    assert!(matches!(err.kind, ErrorKind::MalformedNumber(_)));
}

#[test]
fn one_call_compile_matches_parser_pipeline() {
    let src = "main :: int { let x = 12; return x; }";
    let direct = edc::parser::compile(src.to_string()).unwrap();
    assert_eq!(direct, compile(src).unwrap());
    assert!(edc::parser::compile("main :: void { }".to_string()).is_err());
}
