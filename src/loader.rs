//! What the module loader hands the engine: the rewritten source of a
//! module, wrapped in a function that gives it its own `module` and
//! `exports` and returns `module.exports`.

use crate::text::{chars_of, push_str, string_of};
use crate::typescript::{file_kind_of, transform, transformed, FileKind};
use crate::annotations::standard_patterns;
use vstd::prelude::*;

verus! {

pub const MODULE_PROLOGUE: &'static str = "\n        (function() {\n            const module = { exports: {} };\n            const exports = module.exports;\n            ";

pub const MODULE_EPILOGUE: &'static str = "\n            return module.exports;\n        })()\n        ";

pub open spec fn wrapped(body: Seq<char>) -> Seq<char> {
    MODULE_PROLOGUE@ + body + MODULE_EPILOGUE@
}

/// The module body wrapped in a function that supplies a fresh `module`
/// binding and returns `module.exports`.
pub fn wrap_module_body(body: &str) -> (r: String)
    ensures
        r@ == wrapped(body@),
{
    let mut r = string_of(&chars_of(MODULE_PROLOGUE));
    push_str(&mut r, body);
    push_str(&mut r, MODULE_EPILOGUE);
    r
}

/// The text the engine runs for a module: its source rewritten for the kind
/// its specifier names, then wrapped.
pub fn module_script(specifier: &str, source: &str) -> (r: String)
    ensures
        r@ == wrapped(transformed(source@, file_kind_of(specifier@), standard_patterns())),
{
    let kind = FileKind::of_filename(specifier);
    let body = transform(source, kind);
    wrap_module_body(body.as_str())
}

} // verus!
