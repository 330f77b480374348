use rode::cli::{parse_args, ArgsError};
use rode::error_report::{find_syntax_error_line, format_error};
use rode::loader::{module_script, wrap_module_body};

fn args(v: &[&str]) -> Vec<String> {
    v.iter().map(|s| s.to_string()).collect()
}

#[test]
fn argument_forms() {
    assert_eq!(parse_args(&args(&["rode"])), Err(ArgsError::Missing));
    assert_eq!(parse_args(&args(&["rode", "a.js"])), Ok((false, "a.js".to_string())));
    assert_eq!(parse_args(&args(&["rode", "--watch", "a.js"])), Ok((true, "a.js".to_string())));
    assert_eq!(parse_args(&args(&["rode", "-w", "a.js", "x"])), Ok((true, "a.js".to_string())));
    assert_eq!(parse_args(&args(&["rode", "-w"])), Err(ArgsError::Unrecognized));
    assert_eq!(parse_args(&args(&["rode", "a", "b"])), Err(ArgsError::Unrecognized));
    assert_eq!(parse_args(&args(&["rode", "--watch", "a", "b"])), Err(ArgsError::Unrecognized));
}

#[test]
fn module_body_is_wrapped() {
    assert_eq!(
        wrap_module_body("x();"),
        "\n        (function() {\n            const module = { exports: {} };\n            const exports = module.exports;\n            x();\n            return module.exports;\n        })()\n        "
    );
    assert_eq!(
        module_script("./m.js", "export const a = 1;"),
        wrap_module_body("const a = 1;\n\n// CommonJS exports\nmodule.exports.a = a;")
    );
    assert_eq!(
        module_script("./t.ts", "let n: number = 2;"),
        wrap_module_body("let n = 2;")
    );
    assert_eq!(
        module_script("./legacy", "export default 3;"),
        wrap_module_body("const __default = 3;\n\n// Module exports\nmodule.exports.default = __default;")
    );
}

#[test]
fn error_line_guess() {
    assert_eq!(
        find_syntax_error_line("function f() {\n  return 1;\n}", "SyntaxError: Unexpected token"),
        2
    );
    assert_eq!(find_syntax_error_line("a\nb", "ReferenceError: a"), 1);
    assert_eq!(find_syntax_error_line("x = 1;\ny = 2;", "Unexpected token"), 1);
}

#[test]
fn error_report_lists_context() {
    assert_eq!(
        format_error("Unexpected token ')'", "function f() {\n  return 1;\n}", "main.js"),
        "\nUnexpected token ')'\n    at main.js:2\n\n      1 | function f() {\n  >   2 |   return 1;\n      | ^^^^^^^^^\n      3 | }\n"
    );
    assert_eq!(format_error("boom", "", "e.js"), "\nboom\n    at e.js:1\n\n");
    assert_eq!(
        format_error("boom", "only", "e.js"),
        "\nboom\n    at e.js:1\n\n  >   1 | only\n      | ^^^^\n"
    );
}
