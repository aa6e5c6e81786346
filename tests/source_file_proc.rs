use c_preproc::source_file_proc::{strip_function_definitions, text_before_functions, TopNode};

fn node(kind: &str, start: usize, end: usize) -> TopNode {
    TopNode { kind: kind.to_string(), start, end }
}

#[test]
fn keeps_text_before_each_function() {
    let src = b"int a;\nvoid f() {}\nint b;\nvoid g() {}\ntail";
    let nodes = vec![
        node("declaration", 0, 6),
        node("function_definition", 7, 18),
        node("declaration", 19, 25),
        node("function_definition", 26, 37),
        node("expression_statement", 38, 42),
    ];
    let r = text_before_functions(src, &nodes).unwrap();
    assert_eq!(r, b"int a;\n\nint b;\n".to_vec());
}

#[test]
fn no_function_keeps_nothing() {
    let r = text_before_functions(b"int a;", &vec![node("declaration", 0, 6)]).unwrap();
    assert!(r.is_empty());
}

#[test]
fn function_out_of_range_is_refused() {
    assert!(text_before_functions(b"int a;", &vec![node("function_definition", 9, 12)]).is_none());
    let nodes = vec![node("function_definition", 2, 5), node("function_definition", 3, 6)];
    assert!(text_before_functions(b"abcdefg", &nodes).is_none());
}

#[test]
fn parses_c_and_drops_function_definitions() {
    let r = strip_function_definitions("int a;\nvoid f() { a = 1; }\nint b;\nvoid g() {}\n").unwrap();
    assert_eq!(String::from_utf8(r).unwrap(), "int a;\n\nint b;\n");
}
