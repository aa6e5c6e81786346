use c_preproc::header_file::get_macros;
use c_preproc::header_file_proc::get_hal_macros;

fn lines(v: &[&str]) -> Vec<String> {
    v.iter().map(|s| s.to_string()).collect()
}

#[test]
fn single_line_definitions_are_gathered() {
    let r = get_macros(&lines(&["  #define A 1  ", "int x;", "#define B(x) (x)"]));
    assert_eq!(r, vec!["#define A 1".to_string(), "#define B(x) (x)".to_string()]);
}

#[test]
fn continued_definition_is_joined() {
    let r = get_hal_macros(&lines(&[
        "#define __HAL_LOCK(h) do{ \\",
        "    (h)->Lock = 1; \\",
        "  } while(0)",
        "#define OTHER 2",
    ]));
    assert_eq!(r, vec!["#define __HAL_LOCK(h) do{ (h)->Lock = 1; } while(0)".to_string()]);
}

#[test]
fn plain_definitions_lose_continuation_backslashes() {
    let r = get_macros(&lines(&["#define B(x) \\", "  ((x) + 1)"]));
    assert_eq!(r, vec!["#define B(x) ((x) + 1)".to_string()]);
}

#[test]
fn plain_definitions_keep_inner_backslashes() {
    let r = get_macros(&lines(&["  #define P a\\b  ", "#define NL '\\n'"]));
    assert_eq!(r, vec!["#define P a\\b".to_string(), "#define NL '\\n'".to_string()]);
    let r = get_macros(&lines(&["#define S(x) \\", "  puts(\"\\t\"); \\", "  x"]));
    assert_eq!(r, vec!["#define S(x) puts(\"\\t\"); x".to_string()]);
}

#[test]
fn hal_definitions_lose_every_backslash() {
    let r = get_hal_macros(&lines(&["#define __HAL_P a\\b"]));
    assert_eq!(r, vec!["#define __HAL_P ab".to_string()]);
}

#[test]
fn definition_inside_open_one_is_skipped() {
    let r = get_hal_macros(&lines(&["#define __HAL_A \\", "#define __HAL_B 1", "end"]));
    assert_eq!(r, vec!["#define __HAL_A end".to_string()]);
}

#[test]
fn unfinished_definition_is_dropped() {
    let r = get_macros(&lines(&["#define A \\"]));
    assert!(r.is_empty());
}
