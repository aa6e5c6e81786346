use c_preproc::c_macro::{cmacro_from_parts, convert_string_to_cmacro, expand_c_macro, expand_statement, CMacro};
use c_preproc::statements::expand_lines;
use c_preproc::Error;

fn max_macro() -> CMacro {
    CMacro {
        name: "MAX".to_string(),
        params: Some(vec!["a".to_string(), "b".to_string()]),
        content: "((a) > (b) ? (a) : (b))".to_string(),
    }
}

fn pi_macro() -> CMacro {
    CMacro { name: "PI".to_string(), params: None, content: "3.14159".to_string() }
}

#[test]
fn test_macro_conversion() {
    let input = vec![
        "#define __HAL_ADC_CLEAR_CALIBFAIL_FLAG(__HANDLE__) (((__HANDLE__)->Instance->CCSR) |= ADC_CCSR_CALFAIL)".to_string(),
        "#define __HAL_ADC_RESET_HANDLE_STATE(__HANDLE__)                               do{                                                                          (__HANDLE__)->State = HAL_ADC_STATE_RESET;
               (__HANDLE__)->MspInitCallback = NULL;                                     (__HANDLE__)->MspDeInitCallback = NULL;                                   } while(0)".to_string(),
        "#define MAX(a, b) ((a) > (b) ? (a) : (b))".to_string(),
    ];

    let result = convert_string_to_cmacro(input).unwrap();

    assert_eq!(result.len(), 3);

    assert_eq!(result[0].name, "__HAL_ADC_CLEAR_CALIBFAIL_FLAG");
    assert_eq!(result[0].params, Some(vec!["__HANDLE__".to_string()]));
    assert_eq!(result[0].content, "(((__HANDLE__)->Instance->CCSR) |= ADC_CCSR_CALFAIL)");

    assert_eq!(result[1].name, "__HAL_ADC_RESET_HANDLE_STATE");
    assert_eq!(result[1].params, Some(vec!["__HANDLE__".to_string()]));
    assert_eq!(result[1].content, "(__HANDLE__)->State = HAL_ADC_STATE_RESET; (__HANDLE__)->MspInitCallback = NULL; (__HANDLE__)->MspDeInitCallback = NULL;");

    assert_eq!(result[2].name, "MAX");
    assert_eq!(result[2].params, Some(vec!["a".to_string(), "b".to_string()]));
    assert_eq!(result[2].content, "((a) > (b) ? (a) : (b))");
}

#[test]
fn test_multiple_spaces_replacement() {
    let input = vec!["#define EXAMPLE_MACRO(param)   some    long       macro    content".to_string()];

    let result = convert_string_to_cmacro(input).unwrap();

    assert_eq!(result[0].name, "EXAMPLE_MACRO");
    assert_eq!(result[0].params, Some(vec!["param".to_string()]));
    assert_eq!(result[0].content, "some long macro content");
}

#[test]
fn test_macro_replacement() {
    let lines: Vec<String> = vec![
        "int main() {".to_string(),
        "    int x = 5, y = 10;".to_string(),
        "    int max_val = MAX(x, y);".to_string(),
        "    float circle_area = PI * x * x;".to_string(),
        "    return 0;".to_string(),
        "}".to_string(),
    ];
    let macros = vec![max_macro(), pi_macro()];

    let out = expand_lines(&macros, &lines);
    let output_content = out.join("\n");

    assert!(output_content.contains("int max_val = ((x) > (y) ? (x) : (y));"));
    assert!(output_content.contains("float circle_area = 3.14159 * x * x;"));
}

#[test]
fn parse_max_definition() {
    let r = convert_string_to_cmacro(vec!["#define MAX(a, b) ((a) > (b) ? (a) : (b))".to_string()]).unwrap();
    assert_eq!(r.len(), 1);
    assert_eq!(r[0].name, "MAX");
    assert_eq!(r[0].params, Some(vec!["a".to_string(), "b".to_string()]));
    assert_eq!(r[0].content, "((a) > (b) ? (a) : (b))");
}

#[test]
fn parse_strips_do_while_wrapper() {
    let r = convert_string_to_cmacro(vec![
        "#define RESET(h) do{  (h)->a = 0;\n   (h)->b = 1;   } while(0)".to_string(),
    ])
    .unwrap();
    assert_eq!(r[0].params, Some(vec!["h".to_string()]));
    assert_eq!(r[0].content, "(h)->a = 0; (h)->b = 1;");
}

#[test]
fn parse_keeps_body_without_full_wrapper() {
    let m = cmacro_from_parts("F", "x", "do{ x; }");
    assert_eq!(m.content, "do{ x; }");
    let m = cmacro_from_parts("G", "", "do{} while(0)");
    assert_eq!(m.content, "");
    assert_eq!(m.params, Some(vec![]));
}

#[test]
fn parse_parts_drops_empty_parameters() {
    let m = cmacro_from_parts("F", " a , , b ,", "  a\t+\n b ");
    assert_eq!(m.name, "F");
    assert_eq!(m.params, Some(vec!["a".to_string(), "b".to_string()]));
    assert_eq!(m.content, "a + b");
}

#[test]
fn parse_empty_parameter_list() {
    let r = convert_string_to_cmacro(vec!["#define INIT() setup()".to_string()]).unwrap();
    assert_eq!(r[0].name, "INIT");
    assert_eq!(r[0].params, Some(vec![]));
    assert_eq!(r[0].content, "setup()");
}

#[test]
fn parse_rejects_malformed_definition() {
    let r = convert_string_to_cmacro(vec![
        "#define MAX(a, b) ((a) > (b) ? (a) : (b))".to_string(),
        "#define VERSION 3".to_string(),
    ]);
    match r {
        Err(Error::InvalidMacro(s)) => assert_eq!(s, "#define VERSION 3"),
        _ => panic!("expected InvalidMacro"),
    }
}

#[test]
fn parse_empty_catalog() {
    let r = convert_string_to_cmacro(vec![]).unwrap();
    assert!(r.is_empty());
}

#[test]
fn object_like_replaces_every_occurrence() {
    let r = expand_c_macro(&pi_macro(), "a = PI * PI + PIE;");
    assert_eq!(r, "a = 3.14159 * 3.14159 + 3.14159E;");
}

#[test]
fn object_like_absent_name_leaves_statement() {
    let r = expand_c_macro(&pi_macro(), "a = b;");
    assert_eq!(r, "a = b;");
}

#[test]
fn object_like_empty_name_matches_everywhere() {
    let m = CMacro { name: String::new(), params: None, content: "X".to_string() };
    assert_eq!(expand_c_macro(&m, "ab"), "ab".replace("", "X"));
    assert_eq!(expand_c_macro(&m, "ab"), "XaXbX");
}

#[test]
fn function_like_call_expands() {
    let r = expand_c_macro(&max_macro(), "int max_val = MAX(x, y);");
    assert_eq!(r, "int max_val = ((x) > (y) ? (x) : (y));");
}

#[test]
fn function_like_arguments_are_trimmed() {
    let r = expand_c_macro(&max_macro(), "m = MAX(  p ,\tq  ) + 1;");
    assert_eq!(r, "m = ((p) > (q) ? (p) : (q)) + 1;");
}

#[test]
fn function_like_only_first_call_expands() {
    let r = expand_c_macro(&max_macro(), "m = MAX(x, y) + MAX(u, v);");
    assert_eq!(r, "m = ((x) > (y) ? (x) : (y)) + MAX(u, v);");
}

#[test]
fn function_like_count_mismatch_unchanged() {
    let r = expand_c_macro(&max_macro(), "m = MAX(x, y, z);");
    assert_eq!(r, "m = MAX(x, y, z);");
    let r = expand_c_macro(&max_macro(), "m = MAX(x);");
    assert_eq!(r, "m = MAX(x);");
}

#[test]
fn function_like_nested_parentheses_unchanged() {
    let r = expand_c_macro(&max_macro(), "m = MAX(f(x), y);");
    assert_eq!(r, "m = MAX(f(x), y);");
}

#[test]
fn function_like_without_parentheses_unchanged() {
    assert_eq!(expand_c_macro(&max_macro(), "m = MAX;"), "m = MAX;");
    assert_eq!(expand_c_macro(&max_macro(), "m = MAX(x, y;"), "m = MAX(x, y;");
}

#[test]
fn function_like_parameters_substituted_in_order() {
    let m = CMacro {
        name: "SWAP".to_string(),
        params: Some(vec!["a".to_string(), "b".to_string()]),
        content: "t = a; a = b; b = t".to_string(),
    };
    let r = expand_c_macro(&m, "SWAP(b, a);");
    assert_eq!(r, "t = a; a = a; a = t;");
}

#[test]
fn zero_parameter_macro_needs_one_empty_argument() {
    let m = CMacro { name: "F".to_string(), params: Some(vec![]), content: "g()".to_string() };
    assert_eq!(expand_c_macro(&m, "F();"), "F();");
}

#[test]
fn catalog_applies_in_order_in_one_pass() {
    let two = CMacro { name: "TWO".to_string(), params: None, content: "ONE + ONE".to_string() };
    let one = CMacro { name: "ONE".to_string(), params: None, content: "1".to_string() };
    let r = expand_statement(&vec![two.clone(), one.clone()], "x = TWO;");
    assert_eq!(r, "x = 1 + 1;");
    let r = expand_statement(&vec![one, two], "x = TWO;");
    assert_eq!(r, "x = ONE + ONE;");
}

#[test]
fn expansion_is_not_idempotent() {
    let m = CMacro { name: "A".to_string(), params: None, content: "A + A".to_string() };
    let once = expand_c_macro(&m, "x = A;");
    assert_eq!(once, "x = A + A;");
    let twice = expand_c_macro(&m, &once);
    assert_eq!(twice, "x = A + A + A + A;");
    assert_ne!(once, twice);
}

#[test]
fn unicode_whitespace_is_trimmed_like_str_trim() {
    let raw = "\u{3000}a\u{a0}, \u{2003}b\u{85}";
    let m = cmacro_from_parts("F", raw, "\u{2028} x \u{202f}\u{205f} y\u{1680}");
    let expected: Vec<String> = raw.split(',').map(|p| p.trim().to_string()).collect();
    assert_eq!(m.params, Some(expected));
    assert_eq!(m.content, "x y");
}
