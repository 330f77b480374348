//! The transform pipeline: elides type-only declarations, strips type
//! syntax line by line, and converts module syntax to CommonJS, chosen by
//! the kind of file.

use crate::annotations::{
    rewrite_typed_line, rewrite_typed_line_exec, standard_patterns, TypePatterns,
};
use crate::blocks::{
    block_end, block_end_from, scan_braces, skip_block, BraceScan,
};
use crate::module_syntax::{
    convert_es6_imports, converted_lines, declaration_export_lines, declaration_export_names, declaration_exports, export_names, exports_trailer, full_conversion, is_export_line, module_exports_trailer, transform_module_source, import_to_require, import_to_require_exec,
};
use crate::text::{
    chars_of, contains, contains_exec, ends_with, ends_with_exec, join_lines, join_lines_exec, lemma_split_lines_total, split_lines, split_lines_exec, starts_with, starts_with_exec, string_of, total_len, trim, trim_exec, views, lemma_join_contains, lemma_line_contains, lemma_match_contains, lemma_trim_starts_contains, skip_ws,
};
use vstd::prelude::*;

verus! {

/// The lines that the stripper produces from `ls[i..]`: an `interface` or
/// `enum` declaration is skipped up to the end of its brace block, a `type`
/// alias (a line with `=`) and an `import type` line are dropped, an import
/// becomes a `require`, and every other line has its type syntax removed.
pub open spec fn strip_lines_from(
    ls: Seq<Seq<char>>,
    i: int,
    pats: (Option<Seq<char>>, Option<Seq<char>>),
) -> Seq<Seq<char>>
    decreases ls.len() - i,
{
    if i < 0 || i >= ls.len() {
        seq![]
    } else {
        let t = trim(ls[i]);
        if starts_with(t, "interface "@) || starts_with(t, "enum "@) {
            let e = block_end(ls, i);
            if e <= i || e > ls.len() {
                seq![]
            } else {
                strip_lines_from(ls, e, pats)
            }
        } else if (starts_with(t, "type "@) && contains(t, "="@)) || starts_with(
            t,
            "import type "@,
        ) {
            strip_lines_from(ls, i + 1, pats)
        } else if starts_with(t, "import "@) {
            seq![import_to_require(ls[i])] + strip_lines_from(ls, i + 1, pats)
        } else {
            seq![rewrite_typed_line(ls[i], pats)] + strip_lines_from(ls, i + 1, pats)
        }
    }
}

/// The stripper on a whole text.
pub open spec fn strip_typed(s: Seq<char>, pats: (Option<Seq<char>>, Option<Seq<char>>)) -> Seq<
    char,
> {
    join_lines(strip_lines_from(split_lines(s), 0, pats))
}

/// Removes the typed-dialect syntax of a source text, with the given
/// compiled patterns. Exports are left for the full conversion.
pub fn strip_typescript_with(source: &str, patterns: &TypePatterns) -> (r: String)
    ensures
        r@ == strip_typed(source@, patterns.view()),
{
    let src = chars_of(source);
    let ls = split_lines_exec(&src);
    let ghost v = views(ls@);
    let ghost pv = patterns.view();
    proof {
        lemma_split_lines_total(src@);
        assert(src@.len() == src.len());
    }
    let mut out: Vec<Vec<char>> = Vec::new();
    let mut i: usize = 0;
    while i < ls.len()
        invariant
            i <= ls.len(),
            v == views(ls@),
            pv == patterns.view(),
            total_len(v) <= usize::MAX,
            views(out@) + strip_lines_from(v, i as int, pv) == strip_lines_from(v, 0, pv),
        decreases ls.len() - i,
    {
        let t = trim_exec(&ls[i]);
        assert(t@ == trim(v[i as int]));
        let ghost out0 = views(out@);
        if starts_with_exec(&t, &chars_of("interface ")) || starts_with_exec(
            &t,
            &chars_of("enum "),
        ) {
            i = skip_block(&ls, i);
        } else if (starts_with_exec(&t, &chars_of("type ")) && contains_exec(&t, &chars_of("=")))
            || starts_with_exec(&t, &chars_of("import type ")) {
            i += 1;
        } else {
            let line = if starts_with_exec(&t, &chars_of("import ")) {
                import_to_require_exec(&ls[i])
            } else {
                rewrite_typed_line_exec(&ls[i], patterns)
            };
            let ghost lv = line@;
            out.push(line);
            assert(views(out@) =~= out0.push(lv));
            assert(out0 + strip_lines_from(v, i as int, pv) =~= views(out@) + strip_lines_from(
                v,
                i + 1,
                pv,
            ));
            i += 1;
        }
    }
    assert(views(out@) + strip_lines_from(v, i as int, pv) =~= views(out@));
    string_of(&join_lines_exec(&out))
}

/// Removes the typed-dialect syntax of a source text.
pub fn strip_typescript(source: &str) -> (r: String)
    ensures
        r@ == strip_typed(source@, standard_patterns()),
{
    let patterns = TypePatterns::new();
    strip_typescript_with(source, &patterns)
}

/// The file name ends in `.ts` or `.tsx`.
pub fn is_typescript_file(filename: &str) -> (r: bool)
    ensures
        r == (ends_with(filename@, ".ts"@) || ends_with(filename@, ".tsx"@)),
{
    let f = chars_of(filename);
    ends_with_exec(&f, &chars_of(".ts")) || ends_with_exec(&f, &chars_of(".tsx"))
}

/// How a source file is rewritten, decided once from its name.
#[derive(PartialEq, Eq, Clone, Copy, Debug, Structural)]
pub enum FileKind {
    /// `.ts` or `.tsx`: type syntax is stripped, then module syntax converted.
    TypedDialect,
    /// `.js`: module syntax is converted.
    PlainModule,
    /// Any other name: only export declarations are rewritten.
    Opaque,
}

pub open spec fn file_kind_of(filename: Seq<char>) -> FileKind {
    if ends_with(filename, ".ts"@) || ends_with(filename, ".tsx"@) {
        FileKind::TypedDialect
    } else if ends_with(filename, ".js"@) {
        FileKind::PlainModule
    } else {
        FileKind::Opaque
    }
}

impl FileKind {
    pub fn of_filename(filename: &str) -> (r: FileKind)
        ensures
            r == file_kind_of(filename@),
    {
        if is_typescript_file(filename) {
            FileKind::TypedDialect
        } else if ends_with_exec(&chars_of(filename), &chars_of(".js")) {
            FileKind::PlainModule
        } else {
            FileKind::Opaque
        }
    }
}

/// What the pipeline makes of a source of the given kind, with the given
/// patterns.
pub open spec fn transformed(
    s: Seq<char>,
    kind: FileKind,
    pats: (Option<Seq<char>>, Option<Seq<char>>),
) -> Seq<char> {
    match kind {
        FileKind::TypedDialect => full_conversion(strip_typed(s, pats)),
        FileKind::PlainModule => full_conversion(s),
        FileKind::Opaque => declaration_exports(s),
    }
}

/// Rewrites a source text for execution as a CommonJS module body, with the
/// given compiled patterns.
pub fn transform_with(source: &str, kind: FileKind, patterns: &TypePatterns) -> (r: String)
    ensures
        r@ == transformed(source@, kind, patterns.view()),
{
    match kind {
        FileKind::TypedDialect => {
            let stripped = strip_typescript_with(source, patterns);
            convert_es6_imports(stripped.as_str())
        },
        FileKind::PlainModule => convert_es6_imports(source),
        FileKind::Opaque => transform_module_source(source),
    }
}

/// Rewrites a source text for execution as a CommonJS module body. It has
/// no precondition: every input yields some text.
pub fn transform(source: &str, kind: FileKind) -> (r: String)
    ensures
        r@ == transformed(source@, kind, standard_patterns()),
{
    let patterns = TypePatterns::new();
    transform_with(source, kind, &patterns)
}

/// A single-line declaration `interface Name { ... }`, whose braces balance
/// on its own line, is dropped whole, and the lines after it are processed
/// as if it were absent.
pub proof fn lemma_one_line_interface_dropped(
    ls: Seq<Seq<char>>,
    i: int,
    pats: (Option<Seq<char>>, Option<Seq<char>>),
)
    requires
        0 <= i < ls.len(),
        starts_with(trim(ls[i]), "interface "@),
        scan_braces(ls[i], 0, 0, false).closed,
    ensures
        strip_lines_from(ls, i, pats) == strip_lines_from(ls, i + 1, pats),
{
    assert(block_end(ls, i) == i + 1);
}

/// The line holds no brace.
pub open spec fn brace_free(line: Seq<char>) -> bool {
    forall|m: int| 0 <= m < line.len() ==> #[trigger] line[m] != '{' && line[m] != '}'
}

proof fn lemma_scan_brace_free(line: Seq<char>, k: int, depth: nat, open: bool)
    requires
        brace_free(line),
        0 <= k <= line.len(),
    ensures
        scan_braces(line, k, depth, open) == (BraceScan { closed: false, depth, open }),
    decreases line.len() - k,
{
    if k < line.len() {
        assert(line[k] != '{' && line[k] != '}');
        lemma_scan_brace_free(line, k + 1, depth, open);
    }
}

proof fn lemma_block_runs_to(ls: Seq<Seq<char>>, k: int, j: int)
    requires
        0 <= k <= j < ls.len(),
        forall|m: int| k <= m < j ==> brace_free(#[trigger] ls[m]),
        scan_braces(ls[j], 0, 1, true).closed,
    ensures
        block_end_from(ls, k, 1, true) == j + 1,
    decreases j - k,
{
    if k < j {
        lemma_scan_brace_free(ls[k], 0, 1, true);
        lemma_block_runs_to(ls, k + 1, j);
    }
}

/// A multi-line `enum` declaration (its first line opens one brace, the
/// member lines hold no brace, and the brace block closes on line `j`) is
/// dropped with all of its lines, members included; the lines after it are
/// processed as if it were absent.
pub proof fn lemma_enum_block_dropped(
    ls: Seq<Seq<char>>,
    i: int,
    j: int,
    pats: (Option<Seq<char>>, Option<Seq<char>>),
)
    requires
        0 <= i < j < ls.len(),
        starts_with(trim(ls[i]), "enum "@),
        scan_braces(ls[i], 0, 0, false) == (BraceScan { closed: false, depth: 1, open: true }),
        forall|m: int| i < m < j ==> brace_free(#[trigger] ls[m]),
        scan_braces(ls[j], 0, 1, true).closed,
    ensures
        strip_lines_from(ls, i, pats) == strip_lines_from(ls, j + 1, pats),
{
    lemma_block_runs_to(ls, i + 1, j);
    assert(block_end(ls, i) == j + 1);
}

/// The line is no type-only declaration, no import, and holds none of the
/// texts that trigger the stripper's rewrites (`": "`, `" as "`, `">("`).
pub open spec fn free_of_type_syntax(line: Seq<char>) -> bool {
    let t = trim(line);
    &&& !starts_with(t, "interface "@)
    &&& !starts_with(t, "enum "@)
    &&& !(starts_with(t, "type "@) && contains(t, "="@))
    &&& !starts_with(t, "import type "@)
    &&& !starts_with(t, "import "@)
    &&& !contains(line, ": "@)
    &&& !contains(line, " as "@)
    &&& !contains(line, ">("@)
}

/// The line is no `import` or `export` statement.
pub open spec fn free_of_module_syntax(line: Seq<char>) -> bool {
    !starts_with(trim(line), "import "@) && !starts_with(trim(line), "export "@) && !is_export_line(
        line,
    )
}

proof fn lemma_strip_plain_from(
    ls: Seq<Seq<char>>,
    i: int,
    pats: (Option<Seq<char>>, Option<Seq<char>>),
)
    requires
        0 <= i <= ls.len(),
        forall|k: int| 0 <= k < ls.len() ==> free_of_type_syntax(#[trigger] ls[k]),
    ensures
        strip_lines_from(ls, i, pats) == ls.subrange(i, ls.len() as int),
    decreases ls.len() - i,
{
    if i < ls.len() {
        lemma_strip_plain_from(ls, i + 1, pats);
        assert(free_of_type_syntax(ls[i]));
        assert(ls.subrange(i, ls.len() as int) =~= seq![ls[i]] + ls.subrange(
            i + 1,
            ls.len() as int,
        ));
    } else {
        assert(ls.subrange(i, ls.len() as int) =~= Seq::<Seq<char>>::empty());
    }
}

/// On a text whose lines hold no typed-dialect syntax, the stripper changes
/// nothing but line endings: every line comes back as it was.
pub proof fn lemma_plain_text_not_stripped(
    s: Seq<char>,
    pats: (Option<Seq<char>>, Option<Seq<char>>),
)
    requires
        forall|k: int|
            0 <= k < split_lines(s).len() ==> free_of_type_syntax(#[trigger] split_lines(s)[k]),
    ensures
        strip_typed(s, pats) == join_lines(split_lines(s)),
{
    let ls = split_lines(s);
    lemma_strip_plain_from(ls, 0, pats);
    assert(ls.subrange(0, ls.len() as int) =~= ls);
}

proof fn lemma_no_exports(ls: Seq<Seq<char>>)
    requires
        forall|k: int| 0 <= k < ls.len() ==> free_of_module_syntax(#[trigger] ls[k]),
    ensures
        export_names(ls) == Seq::<Seq<char>>::empty(),
        declaration_export_names(ls) == Seq::<Seq<char>>::empty(),
    decreases ls.len(),
{
    if ls.len() > 0 {
        let d = ls.drop_last();
        assert forall|k: int| 0 <= k < d.len() implies free_of_module_syntax(#[trigger] d[k]) by {
            assert(d[k] == ls[k]);
        }
        lemma_no_exports(d);
        assert(free_of_module_syntax(ls[ls.len() - 1]));
        assert(export_names(ls) =~= Seq::<Seq<char>>::empty());
        assert(declaration_export_names(ls) =~= Seq::<Seq<char>>::empty());
    }
}

/// On a text whose lines hold no `import` or `export` statement, both
/// module rewriters change nothing but line endings.
pub proof fn lemma_plain_text_converted_unchanged(s: Seq<char>)
    requires
        forall|k: int|
            0 <= k < split_lines(s).len() ==> free_of_module_syntax(#[trigger] split_lines(s)[k]),
    ensures
        full_conversion(s) == join_lines(split_lines(s)),
        declaration_exports(s) == join_lines(split_lines(s)),
{
    let ls = split_lines(s);
    lemma_no_exports(ls);
    assert(converted_lines(ls) =~= ls) by {
        assert forall|k: int| 0 <= k < ls.len() implies #[trigger] converted_lines(ls)[k]
            == ls[k] by {
            assert(free_of_module_syntax(ls[k]));
        }
    }
    assert(declaration_export_lines(ls) =~= ls) by {
        assert forall|k: int| 0 <= k < ls.len() implies #[trigger] declaration_export_lines(
            ls,
        )[k] == ls[k] by {
            assert(free_of_module_syntax(ls[k]));
        }
    }
    assert(ls + exports_trailer(Seq::<Seq<char>>::empty()) =~= ls);
    assert(ls + module_exports_trailer(Seq::<Seq<char>>::empty()) =~= ls);
}

/// A plain-module or opaque file without module syntax comes out of the
/// pipeline unchanged but for its line endings.
pub proof fn lemma_plain_module_unchanged(
    s: Seq<char>,
    kind: FileKind,
    pats: (Option<Seq<char>>, Option<Seq<char>>),
)
    requires
        kind != FileKind::TypedDialect,
        forall|k: int|
            0 <= k < split_lines(s).len() ==> free_of_module_syntax(#[trigger] split_lines(s)[k]),
    ensures
        transformed(s, kind, pats) == join_lines(split_lines(s)),
{
    lemma_plain_text_converted_unchanged(s);
}

/// A text fragment absent from a text is absent from every line of the
/// text once it has been split into lines, joined and split again.
proof fn lemma_absent_after_rejoin(s: Seq<char>, p: Seq<char>)
    requires
        p.len() > 0,
        forall|m: int| 0 <= m < p.len() ==> #[trigger] p[m] != '\n',
        !contains(s, p),
    ensures
        forall|k: int|
            0 <= k < split_lines(join_lines(split_lines(s))).len() ==> !contains(
                #[trigger] split_lines(join_lines(split_lines(s)))[k],
                p,
            ),
{
    let x = join_lines(split_lines(s));
    assert forall|k: int| 0 <= k < split_lines(x).len() implies !contains(
        #[trigger] split_lines(x)[k],
        p,
    ) by {
        if contains(split_lines(x)[k], p) {
            lemma_line_contains(x, k, p);
            lemma_join_contains(split_lines(s), p);
            let j = choose|j: int| 0 <= j < split_lines(s).len() && contains(
                #[trigger] split_lines(s)[j],
                p,
            );
            lemma_line_contains(s, j, p);
        }
    }
}

/// A typed-dialect file whose lines hold no typed-dialect syntax, and whose
/// text holds no `import ` or `export `, comes out of the whole pipeline
/// with every line unchanged: only its line endings are normalized (it is
/// split into lines and joined, by each of the two stages).
pub proof fn lemma_plain_typed_unchanged(s: Seq<char>, pats: (Option<Seq<char>>, Option<Seq<char>>))
    requires
        forall|k: int|
            0 <= k < split_lines(s).len() ==> free_of_type_syntax(#[trigger] split_lines(s)[k]),
        !contains(s, "import "@),
        !contains(s, "export "@),
    ensures
        transformed(s, FileKind::TypedDialect, pats) == join_lines(
            split_lines(join_lines(split_lines(s))),
        ),
{
    lemma_plain_text_not_stripped(s, pats);
    let x = join_lines(split_lines(s));
    reveal_strlit("import ");
    reveal_strlit("export ");
    lemma_absent_after_rejoin(s, "import "@);
    lemma_absent_after_rejoin(s, "export "@);
    assert forall|k: int| 0 <= k < split_lines(x).len() implies free_of_module_syntax(
        #[trigger] split_lines(x)[k],
    ) by {
        let l = split_lines(x)[k];
        assert(!contains(l, "import "@));
        assert(!contains(l, "export "@));
        if starts_with(trim(l), "import "@) {
            lemma_trim_starts_contains(l, "import "@);
        }
        if starts_with(trim(l), "export "@) {
            lemma_trim_starts_contains(l, "export "@);
        }
        if is_export_line(l) {
            lemma_match_contains(l, "export "@, skip_ws(l, 0));
        }
    }
    lemma_plain_text_converted_unchanged(x);
}

} // verus!
