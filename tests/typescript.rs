use rode::annotations::remove_type_annotations;
use rode::module_syntax::{
    convert_es6_imports, convert_export_to_commonjs_with_name, convert_import_to_require,
    transform_module_source,
};
use rode::typescript::{is_typescript_file, strip_typescript, transform, FileKind};

#[test]
fn test_strip_type_annotations() {
    let ts_code = r#"
function add(a: number, b: number): number {
    return a + b;
}

const name: string = "test";
let count: number = 0;
        "#;

    let result = strip_typescript(ts_code);
    assert!(result.contains("function add(a, b)"));
    assert!(result.contains("const name = \"test\""));
    assert!(result.contains("let count = 0"));
}

#[test]
fn test_strip_interfaces() {
    let ts_code = r#"
interface User {
    name: string;
    age: number;
}

const user = { name: "John", age: 30 };
        "#;

    let result = strip_typescript(ts_code);
    assert!(!result.contains("interface User"));
    assert!(result.contains("const user = { name: \"John\", age: 30 }"));
}

#[test]
fn test_strip_type_aliases() {
    let ts_code = r#"
type StringOrNumber = string | number;
type UserID = number;

const id: UserID = 123;
        "#;

    let result = strip_typescript(ts_code);
    assert!(!result.contains("type StringOrNumber"));
    assert!(!result.contains("type UserID"));
    assert!(result.contains("const id = 123"));
}

#[test]
fn single_line_interface_is_dropped() {
    let src = "const a = 1;\ninterface Foo { a: number; }\nconst b = 2;";
    let out = transform(src, FileKind::TypedDialect);
    assert!(out.lines().all(|l| !l.contains("interface")));
    assert_eq!(out, "const a = 1;\nconst b = 2;");
}

#[test]
fn multi_line_enum_is_dropped() {
    let src = "enum Color {\n  Red,\n  Blue\n}\nconst c = 1;";
    let out = transform(src, FileKind::TypedDialect);
    assert!(!out.contains("enum"));
    assert!(!out.contains("Red"));
    assert!(!out.contains("Blue"));
    assert_eq!(out, "const c = 1;");
}

#[test]
fn function_signature_is_stripped_exactly() {
    let src = "function f(a: number, b: string): number { return a; }";
    assert_eq!(transform(src, FileKind::TypedDialect), "function f(a, b) { return a; }");
    assert_eq!(strip_typescript(src), "function f(a, b) { return a; }");
}

#[test]
fn generic_annotation_and_assertion_are_removed() {
    let out = strip_typescript("const x: Foo<Bar> = y as Foo<Bar>;");
    assert!(out.contains("const x = y;"));
    assert!(!out.contains(" as "));
    assert!(!out.contains('<'));
    assert!(!out.contains('>'));
}

#[test]
fn generic_call_arguments_are_removed() {
    assert_eq!(strip_typescript("const m = make<string>(1);"), "const m = make(1);");
}

#[test]
fn exports_round_trip_with_trailer() {
    let out = convert_es6_imports("export const A = 1;\nexport function f() {}\nexport default 42;");
    assert!(out.contains("A = 1;"));
    assert!(out.contains("function f() {}"));
    assert!(out.contains("module.exports = 42;"));
    assert!(out.contains("module.exports.A = A;"));
    assert!(out.contains("module.exports.f = f;"));
    assert_eq!(
        out,
        "const A = 1;\nfunction f() {}\nmodule.exports = 42;\n\n// CommonJS exports\nmodule.exports.A = A;\nmodule.exports.f = f;"
    );
}

#[test]
fn imports_become_requires() {
    assert_eq!(
        convert_import_to_require("import { a, b } from './m';"),
        "const { a, b } = require('./m');"
    );
    assert_eq!(convert_import_to_require("import x from './m';"), "const x = require('./m');");
    assert_eq!(convert_import_to_require("import './side-effect';"), "require('./side-effect');");
    assert_eq!(convert_import_to_require("import \"./dq\";"), "require('./dq');");
    assert_eq!(
        convert_es6_imports("import { a, b } from './m';\nimport x from './m';\nimport './side-effect';"),
        "const { a, b } = require('./m');\nconst x = require('./m');\nrequire('./side-effect');"
    );
}

#[test]
fn unconvertible_import_is_commented_out() {
    assert_eq!(
        convert_import_to_require("import * as ns from './m';"),
        "// import * as ns from './m';"
    );
    assert_eq!(convert_import_to_require("import 'unterminated"), "// import 'unterminated");
    assert_eq!(
        convert_import_to_require("import a from 'x' from 'y'"),
        "// import a from 'x' from 'y'"
    );
}

#[test]
fn export_rewrites_name_what_they_export() {
    assert_eq!(
        convert_export_to_commonjs_with_name("export let n = 3;"),
        ("let n = 3;".to_string(), Some("n".to_string()))
    );
    assert_eq!(
        convert_export_to_commonjs_with_name("  export function go(x) {"),
        ("function go(x) {".to_string(), Some("go".to_string()))
    );
    assert_eq!(
        convert_export_to_commonjs_with_name("export default foo;"),
        ("module.exports = foo;".to_string(), None)
    );
    assert_eq!(
        convert_export_to_commonjs_with_name("export { a, b };"),
        ("// export { a, b };".to_string(), None)
    );
    assert_eq!(
        convert_export_to_commonjs_with_name("export const = 1;"),
        ("// export const = 1;".to_string(), None)
    );
}

#[test]
fn plain_input_is_unchanged_but_for_whitespace() {
    let src = "let a = 1;\nfunction g(x) {\n    return x + a;\n}\n";
    assert_eq!(transform(src, FileKind::PlainModule), "let a = 1;\nfunction g(x) {\n    return x + a;\n}");
    assert_eq!(transform(src, FileKind::TypedDialect), "let a = 1;\nfunction g(x) {\n    return x + a;\n}");
    assert_eq!(transform(src, FileKind::Opaque), "let a = 1;\nfunction g(x) {\n    return x + a;\n}");
}

#[test]
fn malformed_input_still_yields_text() {
    assert_eq!(transform("", FileKind::TypedDialect), "");
    assert_eq!(transform("", FileKind::PlainModule), "");
    assert_eq!(transform("interface Open {\n  a: number;\nconst z = 1;", FileKind::TypedDialect), "");
    assert_eq!(strip_typescript("const s = \"a: b\";"), "const s = \"a: b\";");
    assert_eq!(strip_typescript("f('it\\'s: x');"), "f('it\\'s);");
    assert_eq!(remove_type_annotations("let q = \"a: b"), "let q = \"a: b");
}

#[test]
fn annotation_pass_alone() {
    assert_eq!(remove_type_annotations("let v: number = 1, w: string = 'a';"), "let v = 1, w = 'a';");
    assert_eq!(remove_type_annotations("const o = { a: 1 };"), "const o = { a: 1 };");
    assert_eq!(remove_type_annotations("foo({ a: 1 })"), "foo({ a)");
    assert_eq!(
        remove_type_annotations("function f() { g(x: number); }"),
        "function f() { g(x); }"
    );
}

#[test]
fn comment_lines_keep_their_colons() {
    assert_eq!(strip_typescript("// note: keep"), "// note: keep");
}

#[test]
fn double_spaces_collapse_only_after_removals() {
    assert_eq!(strip_typescript("a  =  b"), "a  =  b");
    assert_eq!(strip_typescript("let x: number  =  1;"), "let x = 1;");
    assert_eq!(
        strip_typescript("  const s: string = \"a  b\";"),
        " const s = \"a  b\";"
    );
}

#[test]
fn non_identifier_exports_are_commented_out() {
    assert_eq!(
        convert_export_to_commonjs_with_name("export const { a } = o;"),
        ("// export const { a } = o;".to_string(), None)
    );
    assert_eq!(
        convert_export_to_commonjs_with_name("export const a: T = 1;"),
        ("// export const a: T = 1;".to_string(), None)
    );
    assert_eq!(
        convert_export_to_commonjs_with_name("export function f <T>(x) {}"),
        ("// export function f <T>(x) {}".to_string(), None)
    );
    assert_eq!(
        convert_export_to_commonjs_with_name("export function () {}"),
        ("// export function () {}".to_string(), None)
    );
    assert_eq!(convert_es6_imports("export const { a } = o;"), "// export const { a } = o;");
}

#[test]
fn import_type_is_commented_out_in_full_conversion() {
    assert_eq!(convert_es6_imports("import type X from 'y';"), "// import type X from 'y';");
    assert_eq!(convert_import_to_require("import 9x from 'm';"), "// import 9x from 'm';");
    assert_eq!(convert_import_to_require("import $x from 'm';"), "const $x = require('m');");
}

#[test]
fn crlf_lines_are_normalized() {
    assert_eq!(convert_es6_imports("a\r\nb\r\n"), "a\nb");
}

#[test]
fn typed_file_names() {
    assert!(is_typescript_file("a.ts"));
    assert!(is_typescript_file("b.tsx"));
    assert!(!is_typescript_file("c.js"));
    assert_eq!(FileKind::of_filename("m.ts"), FileKind::TypedDialect);
    assert_eq!(FileKind::of_filename("m.js"), FileKind::PlainModule);
    assert_eq!(FileKind::of_filename("m.mjs"), FileKind::Opaque);
}

#[test]
fn typed_module_exports_are_converted() {
    let src = "import type { T } from './t';\nexport const n: number = 1;";
    assert_eq!(
        transform(src, FileKind::TypedDialect),
        "const n = 1;\n\n// CommonJS exports\nmodule.exports.n = n;"
    );
}

#[test]
fn declaration_exports_rewrite() {
    let src = "export const a = 1;\n  export function b() {}\nexport default 5;\nexport { c };";
    assert_eq!(
        transform_module_source(src),
        "const a = 1;\n  function b() {}\nconst __default = 5;\nexport { c };\n\n// Module exports\nmodule.exports.a = a;\nmodule.exports.b = b;\nmodule.exports.default = __default;"
    );
}

#[test]
fn string_literals_keep_their_contents() {
    assert_eq!(strip_typescript("const s = \"a  as B\";"), "const s = \"a  as B\";");
    assert_eq!(strip_typescript("let v = x as T + \"y as Z\";"), "let v = x+ \"y as Z\";");
    assert_eq!(strip_typescript("f<T>('<a>(');"), "f('<a>(');");
}

#[test]
fn extra_words_before_the_equals_sign_are_commented_out() {
    assert_eq!(
        convert_export_to_commonjs_with_name("export const a b = 1;"),
        ("// export const a b = 1;".to_string(), None)
    );
    assert_eq!(convert_es6_imports("export const a b = 1;"), "// export const a b = 1;");
    assert_eq!(
        convert_export_to_commonjs_with_name("export var  z  = 2;"),
        ("var  z  = 2;".to_string(), Some("z".to_string()))
    );
}

#[test]
fn degenerate_inputs_still_yield_text() {
    assert_eq!(strip_typescript(""), "");
    assert_eq!(strip_typescript("const a = 1;\ninterface X {\n  b: number;"), "const a = 1;");
    assert_eq!(convert_es6_imports(""), "");
    assert_eq!(convert_es6_imports("import './x"), "// import './x");
    assert_eq!(strip_typescript("import './x"), "// import './x");
}
