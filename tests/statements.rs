use c_preproc::c_macro::CMacro;
use c_preproc::statements::{expand_lines, neutralize_directives, StatementBuffer};

fn lines(v: &[&str]) -> Vec<String> {
    v.iter().map(|s| s.to_string()).collect()
}

#[test]
fn directives_are_neutralized() {
    assert_eq!(neutralize_directives("#ifdef DEBUG "), "//HC #ifdef DEBUG ");
    assert_eq!(neutralize_directives("#ifndef X"), "//HC #ifndef X");
    assert_eq!(neutralize_directives("#if A"), "//HC #if A");
    assert_eq!(neutralize_directives("#else "), "//HC #else ");
    assert_eq!(neutralize_directives("#endif // X"), "//HC #endif // X");
    assert_eq!(neutralize_directives("#endif"), "#endif");
    assert_eq!(neutralize_directives("int x;"), "int x;");
}

#[test]
fn buffer_splits_at_semicolons() {
    let mut b = StatementBuffer::new();
    let got = b.push_line("a = 1; b = 2; c");
    assert_eq!(got, vec!["a = 1;".to_string(), "b = 2;".to_string()]);
    let got = b.push_line("  = 3;");
    assert_eq!(got, vec!["c\n  = 3;".to_string()]);
    assert_eq!(b.finish(), None);
}

#[test]
fn buffer_keeps_unterminated_tail() {
    let mut b = StatementBuffer::new();
    assert!(b.push_line("}").is_empty());
    assert_eq!(b.finish(), Some("}\n".to_string()));
}

#[test]
fn directive_folds_into_following_statement() {
    let out = expand_lines(&vec![], &lines(&["#ifdef A ", "int x;", "#endif "]));
    assert_eq!(out, vec!["//HC #ifdef A \nint x;".to_string(), "//HC #endif \n".to_string()]);
}

#[test]
fn whole_pass_expands_each_statement() {
    let max = CMacro {
        name: "MAX".to_string(),
        params: Some(vec!["a".to_string(), "b".to_string()]),
        content: "((a) > (b) ? (a) : (b))".to_string(),
    };
    let pi = CMacro { name: "PI".to_string(), params: None, content: "3.14159".to_string() };
    let out = expand_lines(
        &vec![max, pi],
        &lines(&["    int max_val = MAX(x, y);", "    float circle_area = PI * x * x;"]),
    );
    assert_eq!(
        out,
        vec![
            "    int max_val = ((x) > (y) ? (x) : (y));".to_string(),
            "    float circle_area = 3.14159 * x * x;".to_string(),
        ]
    );
}

#[test]
fn empty_input_gives_no_lines() {
    assert!(expand_lines(&vec![], &vec![]).is_empty());
    assert!(expand_lines(&vec![], &lines(&["   ", ""])).is_empty());
}
