//! The module-syntax rewriter: `import` statements become `require` calls
//! and `export` statements become CommonJS assignments, with the exported
//! names collected for a trailer.

use crate::text::{
    same_chars, append_all, append_range, chars_of, join_lines, join_lines_exec, split_lines, split_lines_exec, views, concat, contains, contains_exec, copy_range, ends_with, ends_with_exec, find_exec, matches_at, replace_all, replace_exec, back_non_ws, back_non_ws_exec, find_from, lemma_find_from_bounds, lemma_rfind_bounds, match_at, rfind_char, rfind_char_exec, skip_ws, skip_ws_exec, starts_with, starts_with_exec, string_of, trim, trim_end, trim_end_exec, trim_exec, ws_pos, ws_pos_exec,
};
use vstd::prelude::*;

verus! {

/// A statement that cannot be converted, kept visible as a comment.
pub open spec fn comment_out(t: Seq<char>) -> Seq<char> {
    "// "@ + t
}

pub open spec fn require_call(path: Seq<char>) -> Seq<char> {
    "require('"@ + path + "');"@
}

/// `import '<path>'` with quote `q`: the text between the first and the last
/// quote.
pub open spec fn side_effect_import(t: Seq<char>, q: char) -> Seq<char> {
    let s = find_from(t, seq![q], 0);
    let e = rfind_char(t, q, t.len() as int);
    if s < e {
        require_call(t.subrange(s + 1, e))
    } else {
        comment_out(t)
    }
}

/// The module path of the clause after ` from `: a final `;` dropped, then
/// one pair of matching quotes around it.
pub open spec fn import_source(f: Seq<char>) -> Seq<char> {
    let g = if f.len() > 0 && f.last() == ';' {
        trim_end(f.drop_last())
    } else {
        f
    };
    if g.len() >= 2 && ((g[0] == '\'' && g.last() == '\'') || (g[0] == '"' && g.last() == '"')) {
        g.subrange(1, g.len() - 1)
    } else {
        g
    }
}

pub open spec fn is_ident_char(c: char) -> bool {
    ('a' <= c && c <= 'z') || ('A' <= c && c <= 'Z') || ('0' <= c && c <= '9') || c == '_'
        || c == '$'
}

/// A non-empty run of identifier characters that does not start with a
/// digit.
pub open spec fn is_ident(s: Seq<char>) -> bool {
    s.len() > 0 && !('0' <= s[0] && s[0] <= '9') && forall|i: int|
        0 <= i < s.len() ==> is_ident_char(#[trigger] s[i])
}

/// An import with ` from ` at index `p` of the trimmed line `t`.
pub open spec fn from_import(t: Seq<char>, p: int) -> Seq<char> {
    if find_from(t, " from "@, p + 6) < t.len() {
        comment_out(t)
    } else {
        let clause = trim(t.subrange(0, p));
        let path = import_source(trim(t.subrange(p + 6, t.len() as int)));
        let names = trim(clause.subrange(8, clause.len() - 1));
        let name = trim(clause.subrange(7, clause.len() as int));
        if clause.len() >= 9 && starts_with(clause, "import {"@) && ends_with(clause, "}"@) {
            "const { "@ + names + " } = "@ + require_call(path)
        } else if starts_with(clause, "import "@) && is_ident(name) {
            "const "@ + name + " = "@ + require_call(path)
        } else {
            comment_out(t)
        }
    }
}

/// An import statement rewritten to a `require` call: a bare import of a
/// path becomes `require('<path>');`, `import { <names> } from '<path>'`
/// becomes `const { <names> } = require('<path>');`, `import <name> from
/// '<path>'` becomes `const <name> = require('<path>');`, and any other line
/// is commented out.
pub open spec fn import_to_require(line: Seq<char>) -> Seq<char> {
    let t = trim(line);
    let p = find_from(t, " from "@, 0);
    if !starts_with(t, "import "@) {
        comment_out(t)
    } else if contains(t, seq!['\'']) && p >= t.len() {
        side_effect_import(t, '\'')
    } else if contains(t, seq!['"']) && p >= t.len() {
        side_effect_import(t, '"')
    } else if p < t.len() {
        from_import(t, p)
    } else {
        comment_out(t)
    }
}

fn is_ident_exec(s: &Vec<char>) -> (r: bool)
    ensures
        r == is_ident(s@),
{
    if s.len() == 0 || ('0' <= s[0] && s[0] <= '9') {
        return false;
    }
    let mut k: usize = 0;
    while k < s.len()
        invariant
            k <= s.len(),
            s@.len() > 0 && !('0' <= s@[0] && s@[0] <= '9'),
            forall|i: int| 0 <= i < k ==> is_ident_char(#[trigger] s@[i]),
        decreases s.len() - k,
    {
        let c = s[k];
        if !(('a' <= c && c <= 'z') || ('A' <= c && c <= 'Z') || ('0' <= c && c <= '9') || c
            == '_' || c == '$') {
            return false;
        }
        k += 1;
    }
    true
}

fn import_source_exec(f: &Vec<char>) -> (r: Vec<char>)
    ensures
        r@ == import_source(f@),
{
    let g = if f.len() > 0 && f[f.len() - 1] == ';' {
        let d = copy_range(f, 0, f.len() - 1);
        assert(d@ =~= f@.drop_last());
        trim_end_exec(&d)
    } else {
        copy_range(f, 0, f.len())
    };
    assert(g@ =~= if f@.len() > 0 && f@.last() == ';' {
        trim_end(f@.drop_last())
    } else {
        f@
    });
    if g.len() >= 2 && ((g[0] == '\'' && g[g.len() - 1] == '\'') || (g[0] == '"' && g[g.len() - 1]
        == '"')) {
        copy_range(&g, 1, g.len() - 1)
    } else {
        g
    }
}

fn comment_out_exec(t: &Vec<char>) -> (r: Vec<char>)
    ensures
        r@ == comment_out(t@),
{
    concat(&chars_of("// "), t)
}

fn require_call_exec(path: &Vec<char>) -> (r: Vec<char>)
    ensures
        r@ == require_call(path@),
{
    let mut r = chars_of("require('");
    append_all(&mut r, path);
    append_all(&mut r, &chars_of("');"));
    r
}

fn side_effect_import_exec(t: &Vec<char>, q: char) -> (r: Vec<char>)
    ensures
        r@ == side_effect_import(t@, q),
{
    let mut qs: Vec<char> = Vec::new();
    qs.push(q);
    assert(qs@ =~= seq![q]);
    let s = find_exec(t, &qs, 0);
    match rfind_char_exec(t, q) {
        Some(e) => {
            proof {
                lemma_rfind_bounds(t@, q, t@.len() as int);
            }
            if s < e {
                require_call_exec(&copy_range(t, s + 1, e))
            } else {
                comment_out_exec(t)
            }
        },
        None => {
            proof {
                lemma_find_from_bounds(t@, seq![q], 0);
            }
            comment_out_exec(t)
        },
    }
}

fn from_import_exec(t: &Vec<char>, p: usize) -> (r: Vec<char>)
    requires
        match_at(t@, " from "@, p as int),
    ensures
        r@ == from_import(t@, p as int),
{
    proof {
        reveal_strlit(" from ");
        reveal_strlit("import {");
        reveal_strlit("import ");
    }
    assert(p + 6 <= t.len());
    let rest = p + 6;
    if find_exec(t, &chars_of(" from "), rest) < t.len() {
        return comment_out_exec(t);
    }
    let clause = trim_exec(&copy_range(t, 0, p));
    let path = import_source_exec(&trim_exec(&copy_range(t, p + 6, t.len())));
    if clause.len() >= 9 && starts_with_exec(&clause, &chars_of("import {")) && ends_with_exec(
        &clause,
        &chars_of("}"),
    ) {
        let names = trim_exec(&copy_range(&clause, 8, clause.len() - 1));
        let mut r = chars_of("const { ");
        append_all(&mut r, &names);
        append_all(&mut r, &chars_of(" } = "));
        append_all(&mut r, &require_call_exec(&path));
        assert(r@ =~= "const { "@ + names@ + " } = "@ + require_call(path@));
        return r;
    }
    if starts_with_exec(&clause, &chars_of("import ")) {
        let name = trim_exec(&copy_range(&clause, 7, clause.len()));
        if is_ident_exec(&name) {
            let mut r = chars_of("const ");
            append_all(&mut r, &name);
            append_all(&mut r, &chars_of(" = "));
            append_all(&mut r, &require_call_exec(&path));
            assert(r@ =~= "const "@ + name@ + " = "@ + require_call(path@));
            return r;
        }
    }
    comment_out_exec(t)
}

pub fn import_to_require_exec(line: &Vec<char>) -> (r: Vec<char>)
    ensures
        r@ == import_to_require(line@),
{
    let t = trim_exec(line);
    let p = find_exec(&t, &chars_of(" from "), 0);
    proof {
        lemma_find_from_bounds(t@, " from "@, 0);
    }
    let mut sq: Vec<char> = Vec::new();
    sq.push('\'');
    let mut dq: Vec<char> = Vec::new();
    dq.push('"');
    assert(sq@ =~= seq!['\'']);
    assert(dq@ =~= seq!['"']);
    if !starts_with_exec(&t, &chars_of("import ")) {
        comment_out_exec(&t)
    } else if contains_exec(&t, &sq) && p >= t.len() {
        side_effect_import_exec(&t, '\'')
    } else if contains_exec(&t, &dq) && p >= t.len() {
        side_effect_import_exec(&t, '"')
    } else if p < t.len() {
        from_import_exec(&t, p)
    } else {
        comment_out_exec(&t)
    }
}

/// Rewrites one `import` line to a `require` call, or comments it out.
pub fn convert_import_to_require(line: &str) -> (r: String)
    ensures
        r@ == import_to_require(line@),
{
    string_of(&import_to_require_exec(&chars_of(line)))
}

/// The second whitespace-separated word of `s`, if there is one.
pub open spec fn second_word(s: Seq<char>) -> Option<Seq<char>> {
    let a = ws_pos(s, 0);
    let b = skip_ws(s, a);
    if a < s.len() && b < s.len() {
        Some(s.subrange(b, ws_pos(s, b)))
    } else {
        None
    }
}

/// An export statement rewritten to CommonJS, with the name it exports:
/// `export const|let|var <name> = ...` (nothing but the keyword and one
/// identifier before the `=`) and `export function <name>(...` (an
/// identifier) lose the `export ` prefix and record `<name>`; `export default <expr>`
/// becomes `module.exports = <expr>;` and records nothing; any other line is
/// commented out.
pub open spec fn export_to_commonjs(line: Seq<char>) -> (Seq<char>, Option<Seq<char>>) {
    let t = trim(line);
    let after = t.subrange(7, t.len() as int);
    if starts_with(t, "export const "@) || starts_with(t, "export let "@) || starts_with(
        t,
        "export var "@,
    ) {
        let e = find_from(after, "="@, 0);
        if e < after.len() {
            let d = trim(after.subrange(0, e));
            match second_word(d) {
                Some(n) => if is_ident(n) && last_word(d) == n {
                    (after, Some(n))
                } else {
                    (comment_out(t), None)
                },
                None => (comment_out(t), None),
            }
        } else {
            (comment_out(t), None)
        }
    } else if starts_with(t, "export function "@) {
        let p = find_from(after, "("@, 0);
        let n = trim(after.subrange(9, p));
        if p < after.len() && 9 <= p && is_ident(n) {
            (after, Some(n))
        } else {
            (comment_out(t), None)
        }
    } else if starts_with(t, "export default "@) {
        let v = t.subrange(15, t.len() as int);
        let w = if v.len() > 0 && v.last() == ';' {
            trim_end(v.drop_last())
        } else {
            v
        };
        ("module.exports = "@ + w + ";"@, None)
    } else {
        (comment_out(t), None)
    }
}

fn second_word_exec(s: &Vec<char>) -> (r: Option<Vec<char>>)
    ensures
        match (r, second_word(s@)) {
            (Some(a), Some(b)) => a@ == b,
            (None, None) => true,
            _ => false,
        },
{
    let a = ws_pos_exec(s, 0);
    let b = skip_ws_exec(s, a);
    if a < s.len() && b < s.len() {
        let c = ws_pos_exec(s, b);
        Some(copy_range(s, b, c))
    } else {
        None
    }
}

fn export_to_commonjs_exec(line: &Vec<char>) -> (r: (Vec<char>, Option<Vec<char>>))
    ensures
        r.0@ == export_to_commonjs(line@).0,
        match (r.1, export_to_commonjs(line@).1) {
            (Some(a), Some(b)) => a@ == b,
            (None, None) => true,
            _ => false,
        },
{
    proof {
        reveal_strlit("export const ");
        reveal_strlit("export let ");
        reveal_strlit("export var ");
        reveal_strlit("export function ");
        reveal_strlit("export default ");
        reveal_strlit("function ");
        reveal_strlit("(");
    }
    let t = trim_exec(line);
    if starts_with_exec(&t, &chars_of("export const ")) || starts_with_exec(
        &t,
        &chars_of("export let "),
    ) || starts_with_exec(&t, &chars_of("export var ")) {
        let after = copy_range(&t, 7, t.len());
        let e = find_exec(&after, &chars_of("="), 0);
        if e < after.len() {
            let before = trim_exec(&copy_range(&after, 0, e));
            match second_word_exec(&before) {
                Some(n) => {
                    let b = back_non_ws_exec(&before, before.len());
                    let last = copy_range(&before, b, before.len());
                    if is_ident_exec(&n) && same_chars(&last, &n) {
                        return (after, Some(n));
                    }
                },
                None => {},
            }
        }
        return (comment_out_exec(&t), None);
    }
    if starts_with_exec(&t, &chars_of("export function ")) {
        let after = copy_range(&t, 7, t.len());
        let p = find_exec(&after, &chars_of("("), 0);
        if p < after.len() && 9 <= p {
            let n = trim_exec(&copy_range(&after, 9, p));
            if is_ident_exec(&n) {
                return (after, Some(n));
            }
        }
        return (comment_out_exec(&t), None);
    }
    if starts_with_exec(&t, &chars_of("export default ")) {
        let v = copy_range(&t, 15, t.len());
        let w = if v.len() > 0 && v[v.len() - 1] == ';' {
            let d = copy_range(&v, 0, v.len() - 1);
            assert(d@ =~= v@.drop_last());
            trim_end_exec(&d)
        } else {
            v
        };
        let mut r = chars_of("module.exports = ");
        append_all(&mut r, &w);
        append_all(&mut r, &chars_of(";"));
        return (r, None);
    }
    (comment_out_exec(&t), None)
}

/// Rewrites one `export` line to CommonJS, returning the name it exports.
pub fn convert_export_to_commonjs_with_name(line: &str) -> (r: (String, Option<String>))
    ensures
        r.0@ == export_to_commonjs(line@).0,
        match (r.1, export_to_commonjs(line@).1) {
            (Some(a), Some(b)) => a@ == b,
            (None, None) => true,
            _ => false,
        },
{
    let (l, n) = export_to_commonjs_exec(&chars_of(line));
    let name = match n {
        Some(v) => Some(string_of(&v)),
        None => None,
    };
    (string_of(&l), name)
}

/// One line under full conversion: an import becomes a `require` (or a
/// comment, for a shape such as `import type` that cannot be converted), an
/// export is rewritten and may name an export, and every other line is
/// copied.
pub open spec fn convert_line(line: Seq<char>) -> (Seq<char>, Option<Seq<char>>) {
    let t = trim(line);
    if starts_with(t, "import "@) {
        (import_to_require(line), None)
    } else if starts_with(t, "export "@) {
        export_to_commonjs(line)
    } else {
        (line, None)
    }
}

pub open spec fn converted_lines(ls: Seq<Seq<char>>) -> Seq<Seq<char>> {
    ls.map_values(|l: Seq<char>| convert_line(l).0)
}

/// The exported names, in the order of their lines.
pub open spec fn export_names(ls: Seq<Seq<char>>) -> Seq<Seq<char>>
    decreases ls.len(),
{
    if ls.len() == 0 {
        seq![]
    } else {
        export_names(ls.drop_last()) + match convert_line(ls.last()).1 {
            Some(n) => seq![n],
            None => seq![],
        }
    }
}

pub open spec fn export_stmt(n: Seq<char>) -> Seq<char> {
    "module.exports."@ + n + " = "@ + n + ";"@
}

/// A blank line, a marker comment and one assignment per name; nothing when
/// no name was exported.
pub open spec fn exports_trailer(names: Seq<Seq<char>>) -> Seq<Seq<char>> {
    if names.len() == 0 {
        seq![]
    } else {
        seq![seq![], "// CommonJS exports"@] + names.map_values(|n: Seq<char>| export_stmt(n))
    }
}

proof fn lemma_convert_line_ident(line: Seq<char>)
    ensures
        convert_line(line).1 is Some ==> is_ident(convert_line(line).1->0),
{
}

/// Every name that full conversion records is an identifier, and a trailer
/// is appended exactly when some line exports a named declaration.
pub proof fn lemma_export_names(ls: Seq<Seq<char>>)
    ensures
        forall|k: int|
            0 <= k < export_names(ls).len() ==> is_ident(#[trigger] export_names(ls)[k]),
        (exports_trailer(export_names(ls)).len() > 0) <==> exists|k: int|
            0 <= k < ls.len() && (#[trigger] convert_line(ls[k])).1 is Some,
    decreases ls.len(),
{
    if ls.len() > 0 {
        let init = ls.drop_last();
        lemma_export_names(init);
        lemma_convert_line_ident(ls.last());
        let tail = match convert_line(ls.last()).1 {
            Some(n) => seq![n],
            None => Seq::<Seq<char>>::empty(),
        };
        assert(export_names(ls) == export_names(init) + tail);
        assert forall|k: int| 0 <= k < export_names(ls).len() implies is_ident(
            #[trigger] export_names(ls)[k],
        ) by {
            if k < export_names(init).len() {
                assert(export_names(ls)[k] == export_names(init)[k]);
            } else {
                assert(export_names(ls)[k] == tail[k - export_names(init).len()]);
            }
        }
        if exists|k: int| 0 <= k < ls.len() && (#[trigger] convert_line(ls[k])).1 is Some {
            let k = choose|k: int| 0 <= k < ls.len() && (#[trigger] convert_line(ls[k])).1 is Some;
            if k < ls.len() - 1 {
                assert(init[k] == ls[k]);
            }
        }
        if exists|k: int| 0 <= k < init.len() && (#[trigger] convert_line(init[k])).1 is Some {
            let k = choose|k: int| 0 <= k < init.len() && (#[trigger] convert_line(init[k])).1 is Some;
            assert(init[k] == ls[k]);
        }
    }
}

/// The full-conversion rewriter on a whole text.
pub open spec fn full_conversion(s: Seq<char>) -> Seq<char> {
    let ls = split_lines(s);
    join_lines(converted_lines(ls) + exports_trailer(export_names(ls)))
}

fn convert_line_exec(line: &Vec<char>) -> (r: (Vec<char>, Option<Vec<char>>))
    ensures
        r.0@ == convert_line(line@).0,
        match (r.1, convert_line(line@).1) {
            (Some(a), Some(b)) => a@ == b,
            (None, None) => true,
            _ => false,
        },
{
    let t = trim_exec(line);
    if starts_with_exec(&t, &chars_of("import ")) {
        (import_to_require_exec(line), None)
    } else if starts_with_exec(&t, &chars_of("export ")) {
        export_to_commonjs_exec(line)
    } else {
        let c = copy_range(line, 0, line.len());
        assert(c@ =~= line@);
        (c, None)
    }
}

fn export_stmt_exec(n: &Vec<char>) -> (r: Vec<char>)
    ensures
        r@ == export_stmt(n@),
{
    let mut r = chars_of("module.exports.");
    append_all(&mut r, n);
    append_all(&mut r, &chars_of(" = "));
    append_all(&mut r, n);
    append_all(&mut r, &chars_of(";"));
    r
}

/// Full conversion of a sequence of lines, trailer included.
pub fn convert_lines_exec(ls: &Vec<Vec<char>>) -> (r: Vec<Vec<char>>)
    ensures
        views(r@) == converted_lines(views(ls@)) + exports_trailer(export_names(views(ls@))),
{
    let ghost v = views(ls@);
    let mut out: Vec<Vec<char>> = Vec::new();
    let mut names: Vec<Vec<char>> = Vec::new();
    let mut i: usize = 0;
    while i < ls.len()
        invariant
            i <= ls.len(),
            v == views(ls@),
            views(out@) == converted_lines(v.take(i as int)),
            views(names@) == export_names(v.take(i as int)),
        decreases ls.len() - i,
    {
        let (l, n) = convert_line_exec(&ls[i]);
        let ghost out0 = views(out@);
        let ghost names0 = views(names@);
        proof {
            assert(v.take(i + 1).drop_last() =~= v.take(i as int));
            assert(v.take(i + 1).last() == ls@[i as int]@);
        }
        let ghost lv = l@;
        out.push(l);
        assert(views(out@) =~= out0.push(lv));
        assert(converted_lines(v.take(i + 1)) =~= converted_lines(v.take(i as int)).push(
            convert_line(v[i as int]).0,
        ));
        match n {
            Some(x) => {
                names.push(x);
                assert(views(names@) =~= names0 + seq![x@]);
            },
            None => {
                assert(names0 + seq![] =~= names0);
            },
        }
        i += 1;
    }
    assert(v.take(i as int) =~= v);
    if names.len() > 0 {
        let ghost body = views(out@);
        out.push(Vec::new());
        out.push(chars_of("// CommonJS exports"));
        let mut k: usize = 0;
        while k < names.len()
            invariant
                k <= names.len(),
                views(out@) == body + seq![seq![], "// CommonJS exports"@] + views(names@).take(
                    k as int,
                ).map_values(|n: Seq<char>| export_stmt(n)),
            decreases names.len() - k,
        {
            let ghost before = views(out@);
            out.push(export_stmt_exec(&names[k]));
            assert(views(names@).take(k + 1).map_values(|n: Seq<char>| export_stmt(n))
                =~= views(names@).take(k as int).map_values(|n: Seq<char>| export_stmt(n)).push(
                export_stmt(names@[k as int]@),
            ));
            assert(views(out@) =~= before.push(export_stmt(names@[k as int]@)));
            k += 1;
        }
        assert(views(names@).take(k as int) =~= views(names@));
        assert(views(out@) =~= body + exports_trailer(views(names@)));
    } else {
        assert(views(out@) =~= views(out@) + exports_trailer(views(names@)));
    }
    out
}

/// Converts the `import` and `export` statements of a whole text to
/// CommonJS, appending the trailer that exposes the exported names.
pub fn convert_es6_imports(source_code: &str) -> (r: String)
    ensures
        r@ == full_conversion(source_code@),
{
    let ls = split_lines_exec(&chars_of(source_code));
    string_of(&join_lines_exec(&convert_lines_exec(&ls)))
}

/// The last whitespace-separated word of `s` (empty when `s` ends with
/// whitespace or is empty).
pub open spec fn last_word(s: Seq<char>) -> Seq<char> {
    s.subrange(back_non_ws(s, s.len() as int), s.len() as int)
}

/// After its leading whitespace, the line begins with `export `.
pub open spec fn is_export_line(line: Seq<char>) -> bool {
    match_at(line, "export "@, skip_ws(line, 0))
}

/// The line with the `export ` after its indentation removed.
pub open spec fn drop_export_prefix(line: Seq<char>) -> Seq<char> {
    let w = skip_ws(line, 0);
    line.subrange(0, w) + line.subrange(w + 7, line.len() as int)
}

/// One line under the declaration-only export rewrite: `export const|let|var`
/// and `export function` lines lose `export ` and name the declared
/// identifier; an `export default` line becomes `const __default = ...` and
/// names `default`; every other line is kept.
pub open spec fn declaration_export_line(line: Seq<char>) -> (Seq<char>, Option<Seq<char>>) {
    if !is_export_line(line) {
        (line, None)
    } else if contains(line, "export const "@) || contains(line, "export let "@) || contains(
        line,
        "export var "@,
    ) {
        let e = find_from(line, "="@, 0);
        let name = if e < line.len() {
            last_word(trim(line.subrange(0, e)))
        } else {
            seq![]
        };
        (drop_export_prefix(line), if is_ident(name) { Some(name) } else { None })
    } else if contains(line, "export function "@) {
        let f = find_from(line, "function "@, 0);
        let after = line.subrange(f + 9, line.len() as int);
        let p = find_from(after, "("@, 0);
        let name = if p < after.len() {
            trim(after.subrange(0, p))
        } else {
            seq![]
        };
        (drop_export_prefix(line), if is_ident(name) { Some(name) } else { None })
    } else if contains(line, "export default "@) {
        (replace_all(line, "export default "@, "const __default = "@), Some("default"@))
    } else {
        (line, None)
    }
}

pub open spec fn declaration_export_lines(ls: Seq<Seq<char>>) -> Seq<Seq<char>> {
    ls.map_values(|l: Seq<char>| declaration_export_line(l).0)
}

pub open spec fn declaration_export_names(ls: Seq<Seq<char>>) -> Seq<Seq<char>>
    decreases ls.len(),
{
    if ls.len() == 0 {
        seq![]
    } else {
        declaration_export_names(ls.drop_last()) + match declaration_export_line(ls.last()).1 {
            Some(n) => seq![n],
            None => seq![],
        }
    }
}

pub open spec fn module_export_stmt(n: Seq<char>) -> Seq<char> {
    if n == "default"@ {
        "module.exports.default = __default;"@
    } else {
        export_stmt(n)
    }
}

pub open spec fn module_exports_trailer(names: Seq<Seq<char>>) -> Seq<Seq<char>> {
    if names.len() == 0 {
        seq![]
    } else {
        seq![seq![], "// Module exports"@] + names.map_values(
            |n: Seq<char>| module_export_stmt(n),
        )
    }
}

/// The declaration-only export rewrite on a whole text.
pub open spec fn declaration_exports(s: Seq<char>) -> Seq<char> {
    let ls = split_lines(s);
    join_lines(declaration_export_lines(ls) + module_exports_trailer(declaration_export_names(ls)))
}

fn drop_export_prefix_exec(line: &Vec<char>, w: usize) -> (r: Vec<char>)
    requires
        w as int == skip_ws(line@, 0),
        match_at(line@, "export "@, w as int),
    ensures
        r@ == drop_export_prefix(line@),
{
    proof {
        reveal_strlit("export ");
    }
    assert(w + 7 <= line.len());
    let mut r = copy_range(line, 0, w);
    append_range(&mut r, line, w + 7, line.len());
    r
}

fn declaration_export_line_exec(line: &Vec<char>) -> (r: (Vec<char>, Option<Vec<char>>))
    ensures
        r.0@ == declaration_export_line(line@).0,
        match (r.1, declaration_export_line(line@).1) {
            (Some(a), Some(b)) => a@ == b,
            (None, None) => true,
            _ => false,
        },
{
    proof {
        reveal_strlit("function ");
        reveal_strlit("default");
    }
    let w = skip_ws_exec(line, 0);
    if !matches_at(line, &chars_of("export "), w) {
        let c = copy_range(line, 0, line.len());
        assert(c@ =~= line@);
        return (c, None);
    }
    if contains_exec(line, &chars_of("export const ")) || contains_exec(
        line,
        &chars_of("export let "),
    ) || contains_exec(line, &chars_of("export var ")) {
        let e = find_exec(line, &chars_of("="), 0);
        let name = if e < line.len() {
            let d = trim_exec(&copy_range(line, 0, e));
            let b = back_non_ws_exec(&d, d.len());
            copy_range(&d, b, d.len())
        } else {
            Vec::new()
        };
        assert(name@ =~= if e < line@.len() {
            last_word(trim(line@.subrange(0, e as int)))
        } else {
            seq![]
        });
        let n = if is_ident_exec(&name) {
            Some(name)
        } else {
            None
        };
        return (drop_export_prefix_exec(line, w), n);
    }
    if contains_exec(line, &chars_of("export function ")) {
        let f = find_exec(line, &chars_of("function "), 0);
        proof {
            lemma_find_from_bounds(line@, "function "@, 0);
            reveal_strlit("export function ");
            let g = find_from(line@, "export function "@, 0);
            lemma_find_from_bounds(line@, "export function "@, 0);
            assert(g < line@.len());
            assert(line@.subrange(g, g + 16) == "export function "@);
            assert forall|k: int| 0 <= k < 9 implies line@.subrange(g + 7, g + 16)[k]
                == "function "@[k] by {
                assert(line@[g + 7 + k] == line@.subrange(g, g + 16)[7 + k]);
            }
            assert(line@.subrange(g + 7, g + 16) =~= "function "@);
            assert(match_at(line@, "function "@, g + 7));
            assert(f < line@.len());
        }
        let after = copy_range(line, f + 9, line.len());
        let p = find_exec(&after, &chars_of("("), 0);
        let name = if p < after.len() {
            trim_exec(&copy_range(&after, 0, p))
        } else {
            Vec::new()
        };
        assert(name@ =~= if p < after@.len() {
            trim(after@.subrange(0, p as int))
        } else {
            seq![]
        });
        let n = if is_ident_exec(&name) {
            Some(name)
        } else {
            None
        };
        return (drop_export_prefix_exec(line, w), n);
    }
    if contains_exec(line, &chars_of("export default ")) {
        let r = replace_exec(line, &chars_of("export default "), &chars_of("const __default = "));
        return (r, Some(chars_of("default")));
    }
    let c = copy_range(line, 0, line.len());
    assert(c@ =~= line@);
    (c, None)
}

fn module_export_stmt_exec(n: &Vec<char>) -> (r: Vec<char>)
    ensures
        r@ == module_export_stmt(n@),
{
    let d = chars_of("default");
    if n.len() == d.len() && matches_at(n, &d, 0) {
        assert(n@ =~= d@);
        chars_of("module.exports.default = __default;")
    } else {
        proof {
            if n@ == "default"@ {
                assert(n@.subrange(0, d@.len() as int) =~= n@);
            }
        }
        export_stmt_exec(n)
    }
}

/// The declaration-only export rewrite of a sequence of lines, trailer
/// included.
pub fn declaration_exports_exec(ls: &Vec<Vec<char>>) -> (r: Vec<Vec<char>>)
    ensures
        views(r@) == declaration_export_lines(views(ls@)) + module_exports_trailer(
            declaration_export_names(views(ls@)),
        ),
{
    let ghost v = views(ls@);
    let mut out: Vec<Vec<char>> = Vec::new();
    let mut names: Vec<Vec<char>> = Vec::new();
    let mut i: usize = 0;
    while i < ls.len()
        invariant
            i <= ls.len(),
            v == views(ls@),
            views(out@) == declaration_export_lines(v.take(i as int)),
            views(names@) == declaration_export_names(v.take(i as int)),
        decreases ls.len() - i,
    {
        let (l, n) = declaration_export_line_exec(&ls[i]);
        let ghost out0 = views(out@);
        let ghost names0 = views(names@);
        proof {
            assert(v.take(i + 1).drop_last() =~= v.take(i as int));
            assert(v.take(i + 1).last() == ls@[i as int]@);
        }
        let ghost lv = l@;
        out.push(l);
        assert(views(out@) =~= out0.push(lv));
        assert(declaration_export_lines(v.take(i + 1)) =~= declaration_export_lines(
            v.take(i as int),
        ).push(declaration_export_line(v[i as int]).0));
        match n {
            Some(x) => {
                names.push(x);
                assert(views(names@) =~= names0 + seq![x@]);
            },
            None => {
                assert(names0 + seq![] =~= names0);
            },
        }
        i += 1;
    }
    assert(v.take(i as int) =~= v);
    if names.len() > 0 {
        let ghost body = views(out@);
        out.push(Vec::new());
        out.push(chars_of("// Module exports"));
        let mut k: usize = 0;
        while k < names.len()
            invariant
                k <= names.len(),
                views(out@) == body + seq![seq![], "// Module exports"@] + views(names@).take(
                    k as int,
                ).map_values(|n: Seq<char>| module_export_stmt(n)),
            decreases names.len() - k,
        {
            let ghost before = views(out@);
            out.push(module_export_stmt_exec(&names[k]));
            assert(views(names@).take(k + 1).map_values(|n: Seq<char>| module_export_stmt(n))
                =~= views(names@).take(k as int).map_values(
                |n: Seq<char>| module_export_stmt(n),
            ).push(module_export_stmt(names@[k as int]@)));
            assert(views(out@) =~= before.push(module_export_stmt(names@[k as int]@)));
            k += 1;
        }
        assert(views(names@).take(k as int) =~= views(names@));
        assert(views(out@) =~= body + module_exports_trailer(views(names@)));
    } else {
        assert(views(out@) =~= views(out@) + module_exports_trailer(views(names@)));
    }
    out
}

/// Rewrites the export declarations of a whole text for a module body,
/// leaving imports alone, and appends the trailer that exposes the names.
pub fn transform_module_source(source: &str) -> (r: String)
    ensures
        r@ == declaration_exports(source@),
{
    let ls = split_lines_exec(&chars_of(source));
    string_of(&join_lines_exec(&declaration_exports_exec(&ls)))
}

} // verus!
