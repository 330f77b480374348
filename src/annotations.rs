//! The type-annotation stripper: a single left-to-right pass over one line
//! that drops `: Type` annotations, followed by the `as Type` and generic
//! call-argument substitutions and the collapsing of double spaces.

use crate::pattern::{
    apply_pattern, compile, pattern_view, regex_accepts, replace_matches, CompiledPattern,
};
use crate::text::{
    same_chars, append_all, append_range, back_ws, back_ws_exec, chars_of, contains, contains_exec, copy_range, is_ws,
    lemma_back_ws_bounds, starts_with, starts_with_exec, string_of,
    trim_start, trim_start_exec,
};

use vstd::prelude::*;

verus! {

/// Where an annotation introduced by `:` stands, which decides the characters
/// that end it.
#[derive(PartialEq, Eq, Clone, Copy, Structural)]
pub enum AnnotationKind {
    /// Inside parentheses: a parameter type, ended by `,` or `)`.
    Parameter,
    /// After a closing parenthesis: a return type, ended by `{`, `;` or `=`.
    ReturnType,
    /// Anywhere else: a declared type, ended by `=`, `;` or `,`.
    Declaration,
}

pub open spec fn ends_annotation(kind: AnnotationKind, c: char) -> bool {
    match kind {
        AnnotationKind::Parameter => c == ',' || c == ')',
        AnnotationKind::ReturnType => c == '{' || c == ';' || c == '=',
        AnnotationKind::Declaration => c == '=' || c == ';' || c == ',',
    }
}

pub fn ends_annotation_exec(kind: AnnotationKind, c: char) -> (r: bool)
    ensures
        r == ends_annotation(kind, c),
{
    match kind {
        AnnotationKind::Parameter => c == ',' || c == ')',
        AnnotationKind::ReturnType => c == '{' || c == ';' || c == '=',
        AnnotationKind::Declaration => c == '=' || c == ';' || c == ',',
    }
}

/// Index of the first character at or after `i` that ends an annotation of
/// `kind`, or the length of the line.
pub open spec fn annotation_end(line: Seq<char>, i: int, kind: AnnotationKind) -> int
    decreases line.len() - i,
{
    if i >= line.len() {
        line.len() as int
    } else if ends_annotation(kind, line[i]) {
        i
    } else {
        annotation_end(line, i + 1, kind)
    }
}

/// The text emitted so far ends, trailing whitespace aside, with `)`.
pub open spec fn after_close_paren(out: Seq<char>) -> bool {
    let e = back_ws(out, out.len() as int);
    e > 0 && out[e - 1] == ')'
}

pub open spec fn kind_at(depth: int, out: Seq<char>) -> AnnotationKind {
    if depth > 0 {
        AnnotationKind::Parameter
    } else if after_close_paren(out) {
        AnnotationKind::ReturnType
    } else {
        AnnotationKind::Declaration
    }
}

/// The annotation pass over `line[k..]`, with `out` emitted so far.
///
/// A quote opens a string literal that only the same quote closes; inside it
/// every character is copied. `depth` counts open parentheses and may go
/// below zero. `braces` counts braces opened on this line and not yet
/// closed: outside parentheses, a `:` inside them is an object-literal key,
/// which is code and is kept. Any other `:` (every one inside parentheses)
/// starts an annotation, which is dropped up to the
/// character that ends it (kept, and processed next); whitespace just before
/// that character is kept too.
pub open spec fn strip_from(
    line: Seq<char>,
    k: int,
    in_str: bool,
    quote: char,
    depth: int,
    braces: nat,
    out: Seq<char>,
) -> Seq<char>
    decreases line.len() - k,
{
    if k < 0 || k >= line.len() {
        out
    } else {
        let c = line[k];
        if c == '"' || c == '\'' {
            if !in_str {
                strip_from(line, k + 1, true, c, depth, braces, out.push(c))
            } else if c == quote {
                strip_from(line, k + 1, false, quote, depth, braces, out.push(c))
            } else {
                strip_from(line, k + 1, in_str, quote, depth, braces, out.push(c))
            }
        } else if in_str {
            strip_from(line, k + 1, in_str, quote, depth, braces, out.push(c))
        } else if c == '(' {
            strip_from(line, k + 1, in_str, quote, depth + 1, braces, out.push(c))
        } else if c == ')' {
            strip_from(line, k + 1, in_str, quote, depth - 1, braces, out.push(c))
        } else if c == '{' {
            strip_from(line, k + 1, in_str, quote, depth, braces + 1, out.push(c))
        } else if c == '}' {
            let b: nat = if braces > 0 { (braces - 1) as nat } else { 0 };
            strip_from(line, k + 1, in_str, quote, depth, b, out.push(c))
        } else if c == ':' && (depth > 0 || braces == 0) {
            let j = annotation_end(line, k + 1, kind_at(depth, out));
            if j <= k || j > line.len() {
                out
            } else {
                strip_from(
                    line,
                    j,
                    in_str,
                    quote,
                    depth,
                    braces,
                    out + line.subrange(back_ws(line, j), j),
                )
            }
        } else {
            strip_from(line, k + 1, in_str, quote, depth, braces, out.push(c))
        }
    }
}

/// The line with its type annotations removed.
pub open spec fn strip_annotations(line: Seq<char>) -> Seq<char> {
    strip_from(line, 0, false, '"', 0, 0, seq![])
}

proof fn lemma_annotation_end_bounds(line: Seq<char>, i: int, kind: AnnotationKind)
    requires
        0 <= i <= line.len(),
    ensures
        i <= annotation_end(line, i, kind) <= line.len(),
    decreases line.len() - i,
{
    if i < line.len() && !ends_annotation(kind, line[i]) {
        lemma_annotation_end_bounds(line, i + 1, kind);
    }
}

fn annotation_end_exec(line: &Vec<char>, i: usize, kind: AnnotationKind) -> (r: usize)
    requires
        i <= line.len(),
    ensures
        r as int == annotation_end(line@, i as int, kind),
        i <= r <= line.len(),
{
    let mut j = i;
    while j < line.len() && !ends_annotation_exec(kind, line[j])
        invariant
            i <= j <= line.len(),
            annotation_end(line@, j as int, kind) == annotation_end(line@, i as int, kind),
        decreases line.len() - j,
    {
        j += 1;
    }
    j
}

fn after_close_paren_exec(out: &Vec<char>) -> (r: bool)
    ensures
        r == after_close_paren(out@),
{
    let e = back_ws_exec(out, out.len());
    e > 0 && out[e - 1] == ')'
}

/// Removes the `: Type` annotations of one line.
pub fn strip_annotations_exec(line: &Vec<char>) -> (r: Vec<char>)
    ensures
        r@ == strip_annotations(line@),
{
    let mut out: Vec<char> = Vec::new();
    let mut in_str = false;
    let mut quote = '"';
    let mut opens: usize = 0;
    let mut closes: usize = 0;
    let mut braces: usize = 0;
    let mut k: usize = 0;
    while k < line.len()
        invariant
            k <= line.len(),
            opens <= k,
            closes <= k,
            braces <= k,
            strip_annotations(line@) == strip_from(
                line@,
                k as int,
                in_str,
                quote,
                opens - closes,
                braces as nat,
                out@,
            ),
        decreases line.len() - k,
    {
        let c = line[k];
        if c == '"' || c == '\'' {
            if !in_str {
                in_str = true;
                quote = c;
            } else if c == quote {
                in_str = false;
            }
            out.push(c);
            k += 1;
        } else if in_str {
            out.push(c);
            k += 1;
        } else if c == '(' {
            opens += 1;
            out.push(c);
            k += 1;
        } else if c == ')' {
            closes += 1;
            out.push(c);
            k += 1;
        } else if c == '{' {
            braces += 1;
            out.push(c);
            k += 1;
        } else if c == '}' {
            if braces > 0 {
                braces -= 1;
            }
            out.push(c);
            k += 1;
        } else if c == ':' && (opens > closes || braces == 0) {
            let kind = if opens > closes {
                AnnotationKind::Parameter
            } else if after_close_paren_exec(&out) {
                AnnotationKind::ReturnType
            } else {
                AnnotationKind::Declaration
            };
            let j = annotation_end_exec(line, k + 1, kind);
            let t = back_ws_exec(line, j);
            proof {
                lemma_annotation_end_bounds(line@, k + 1, kind);
                lemma_back_ws_bounds(line@, j as int);
                if t <= k {
                    assert(is_ws(line@[k as int]));
                }
            }
            append_range(&mut out, line, t, j);
            k = j;
        } else {
            out.push(c);
            k += 1;
        }
    }
    out
}

pub const AS_ASSERTION_PATTERN: &'static str = r"\s+as\s+[A-Za-z_][A-Za-z0-9_<>|&\s]*";

pub const GENERIC_CALL_PATTERN: &'static str = r"<[^<>]*>\s*\(";

/// The two substitution patterns of the stripper, compiled once and passed
/// by reference; a pattern that fails to compile is absent, and its
/// substitution is then left out.
pub struct TypePatterns {
    as_assertion: Option<CompiledPattern>,
    generic_call: Option<CompiledPattern>,
}

/// What the patterns are when compiled from the stripper's two sources.
pub open spec fn standard_patterns() -> (Option<Seq<char>>, Option<Seq<char>>) {
    (
        if regex_accepts(AS_ASSERTION_PATTERN@) {
            Some(AS_ASSERTION_PATTERN@)
        } else {
            None
        },
        if regex_accepts(GENERIC_CALL_PATTERN@) {
            Some(GENERIC_CALL_PATTERN@)
        } else {
            None
        },
    )
}

impl TypePatterns {
    pub closed spec fn view(&self) -> (Option<Seq<char>>, Option<Seq<char>>) {
        (pattern_view(self.as_assertion), pattern_view(self.generic_call))
    }

    pub fn new() -> (r: TypePatterns)
        ensures
            r.view() == standard_patterns(),
    {
        let as_assertion = match compile(AS_ASSERTION_PATTERN) {
            Ok(p) => Some(p),
            Err(_) => None,
        };
        let generic_call = match compile(GENERIC_CALL_PATTERN) {
            Ok(p) => Some(p),
            Err(_) => None,
        };
        TypePatterns { as_assertion, generic_call }
    }
}

fn substitute(p: &Option<CompiledPattern>, text: &Vec<char>, rep: &str) -> (r: Vec<char>)
    ensures
        r@ == apply_pattern(pattern_view(*p), text@, rep@),
{
    match p {
        Some(c) => {
            let s = string_of(text);
            let replaced = replace_matches(c, s.as_str(), rep);
            chars_of(replaced.as_str())
        },
        None => copy_range(text, 0, text.len()),
    }
}

/// A substitution applied to the code of `line[start..]` and not to its
/// string literals: the scan has reached `i`, the current segment began at
/// `start`, and a literal (from its opening quote to the matching closing
/// one) is copied as it is, while each stretch of code between literals is
/// substituted on its own.
pub open spec fn outside_strings_from(
    line: Seq<char>,
    start: int,
    i: int,
    in_str: bool,
    quote: char,
    p: Option<Seq<char>>,
    rep: Seq<char>,
) -> Seq<char>
    decreases line.len() - i,
{
    if i < start || start < 0 || i >= line.len() {
        if in_str {
            line.subrange(start, line.len() as int)
        } else {
            apply_pattern(p, line.subrange(start, line.len() as int), rep)
        }
    } else {
        let c = line[i];
        if (c == '"' || c == '\'') && !in_str {
            apply_pattern(p, line.subrange(start, i), rep) + outside_strings_from(
                line,
                i,
                i + 1,
                true,
                c,
                p,
                rep,
            )
        } else if in_str && c == quote {
            line.subrange(start, i + 1) + outside_strings_from(
                line,
                i + 1,
                i + 1,
                false,
                quote,
                p,
                rep,
            )
        } else {
            outside_strings_from(line, start, i + 1, in_str, quote, p, rep)
        }
    }
}

/// A substitution applied to the code of a line, its string literals kept.
pub open spec fn apply_outside_strings(line: Seq<char>, p: Option<Seq<char>>, rep: Seq<char>) -> Seq<
    char,
> {
    outside_strings_from(line, 0, 0, false, '"', p, rep)
}

fn apply_outside_strings_exec(p: &Option<CompiledPattern>, line: &Vec<char>, rep: &str) -> (r:
    Vec<char>)
    ensures
        r@ == apply_outside_strings(line@, pattern_view(*p), rep@),
{
    let ghost pv = pattern_view(*p);
    let mut out: Vec<char> = Vec::new();
    let mut in_str = false;
    let mut quote = '"';
    let mut start: usize = 0;
    let mut i: usize = 0;
    while i < line.len()
        invariant
            start <= i <= line.len(),
            pv == pattern_view(*p),
            out@ + outside_strings_from(line@, start as int, i as int, in_str, quote, pv, rep@)
                == apply_outside_strings(line@, pv, rep@),
        decreases line.len() - i,
    {
        let ghost out0 = out@;
        let ghost st = in_str;
        let ghost q = quote;
        let ghost s0 = start;
        let c = line[i];
        if (c == '"' || c == '\'') && !in_str {
            let seg = substitute(p, &copy_range(line, start, i), rep);
            append_all(&mut out, &seg);
            in_str = true;
            quote = c;
            start = i;
            assert(out0 + outside_strings_from(line@, s0 as int, i as int, st, q, pv, rep@)
                =~= out@ + outside_strings_from(line@, start as int, i + 1, in_str, quote, pv, rep@));
        } else if in_str && c == quote {
            append_range(&mut out, line, start, i + 1);
            in_str = false;
            start = i + 1;
            assert(out0 + outside_strings_from(line@, s0 as int, i as int, st, q, pv, rep@)
                =~= out@ + outside_strings_from(line@, start as int, i + 1, in_str, quote, pv, rep@));
        }
        i += 1;
    }
    let ghost out0 = out@;
    if in_str {
        append_range(&mut out, line, start, line.len());
    } else {
        let seg = substitute(p, &copy_range(line, start, line.len()), rep);
        append_all(&mut out, &seg);
    }
    assert(out0 + outside_strings_from(line@, start as int, i as int, in_str, quote, pv, rep@)
        =~= out@);
    out
}

/// `s[i..]` with each double space outside string literals replaced by one
/// space (scanning from the left); quotes open and close literals as in the
/// annotation pass.
pub open spec fn collapse_from(s: Seq<char>, i: int, in_str: bool, quote: char) -> Seq<char>
    decreases s.len() - i,
{
    if i < 0 || i >= s.len() {
        seq![]
    } else {
        let c = s[i];
        if c == '"' || c == '\'' {
            if !in_str {
                seq![c] + collapse_from(s, i + 1, true, c)
            } else if c == quote {
                seq![c] + collapse_from(s, i + 1, false, quote)
            } else {
                seq![c] + collapse_from(s, i + 1, in_str, quote)
            }
        } else if !in_str && c == ' ' && i + 1 < s.len() && s[i + 1] == ' ' {
            seq![' '] + collapse_from(s, i + 2, in_str, quote)
        } else {
            seq![c] + collapse_from(s, i + 1, in_str, quote)
        }
    }
}

/// The double spaces of a line collapsed, string contents left as they are.
pub open spec fn collapse_spaces(s: Seq<char>) -> Seq<char> {
    collapse_from(s, 0, false, '"')
}

pub fn collapse_spaces_exec(s: &Vec<char>) -> (r: Vec<char>)
    ensures
        r@ == collapse_spaces(s@),
{
    let mut out: Vec<char> = Vec::new();
    let mut in_str = false;
    let mut quote = '"';
    let mut i: usize = 0;
    while i < s.len()
        invariant
            i <= s.len(),
            out@ + collapse_from(s@, i as int, in_str, quote) == collapse_spaces(s@),
        decreases s.len() - i,
    {
        let ghost out0 = out@;
        let ghost st = in_str;
        let ghost q = quote;
        let c = s[i];
        if c == '"' || c == '\'' {
            if !in_str {
                in_str = true;
                quote = c;
            } else if c == quote {
                in_str = false;
            }
            out.push(c);
            assert(out0 + collapse_from(s@, i as int, st, q) =~= out@ + collapse_from(
                s@,
                i + 1,
                in_str,
                quote,
            ));
            i += 1;
        } else if !in_str && c == ' ' && i + 1 < s.len() && s[i + 1] == ' ' {
            out.push(' ');
            assert(out0 + collapse_from(s@, i as int, st, q) =~= out@ + collapse_from(
                s@,
                i + 2,
                in_str,
                quote,
            ));
            i += 2;
        } else {
            out.push(c);
            assert(out0 + collapse_from(s@, i as int, st, q) =~= out@ + collapse_from(
                s@,
                i + 1,
                in_str,
                quote,
            ));
            i += 1;
        }
    }
    assert(out@ + collapse_from(s@, i as int, in_str, quote) =~= out@);
    out
}

/// One line of a typed-dialect source as the stripper rewrites it: the
/// annotation pass (not on a `//` comment line, and only where `": "`
/// occurs), then `as Type` removal where `" as "` occurs, then removal of
/// generic arguments before a call where `<` and `>(` occur (both applied to
/// the code between string literals, never inside one); on a line that
/// these removals changed, the double spaces they leave behind are then
/// collapsed (outside string literals).
pub open spec fn rewrite_typed_line(
    line: Seq<char>,
    pats: (Option<Seq<char>>, Option<Seq<char>>),
) -> Seq<char> {
    let a = if contains(line, ": "@) && !starts_with(trim_start(line), "//"@) {
        strip_annotations(line)
    } else {
        line
    };
    let b = if contains(a, " as "@) {
        apply_outside_strings(a, pats.0, ""@)
    } else {
        a
    };
    let c = if contains(b, "<"@) && contains(b, ">("@) {
        apply_outside_strings(b, pats.1, "("@)
    } else {
        b
    };
    if c == line {
        line
    } else {
        collapse_spaces(c)
    }
}

pub fn rewrite_typed_line_exec(line: &Vec<char>, pats: &TypePatterns) -> (r: Vec<char>)
    ensures
        r@ == rewrite_typed_line(line@, pats.view()),
{
    let a = if contains_exec(line, &chars_of(": ")) && !starts_with_exec(
        &trim_start_exec(line),
        &chars_of("//"),
    ) {
        strip_annotations_exec(line)
    } else {
        let r = copy_range(line, 0, line.len());
        assert(r@ =~= line@);
        r
    };
    assert(a@ == if contains(line@, ": "@) && !starts_with(trim_start(line@), "//"@) {
        strip_annotations(line@)
    } else {
        line@
    });
    let b = if contains_exec(&a, &chars_of(" as ")) {
        apply_outside_strings_exec(&pats.as_assertion, &a, "")
    } else {
        a
    };
    let c = if contains_exec(&b, &chars_of("<")) && contains_exec(&b, &chars_of(">(")) {
        apply_outside_strings_exec(&pats.generic_call, &b, "(")
    } else {
        b
    };
    if same_chars(&c, line) {
        c
    } else {
        collapse_spaces_exec(&c)
    }
}

/// Removes the type annotations of one line (the annotation pass alone).
pub fn remove_type_annotations(line: &str) -> (r: String)
    ensures
        r@ == strip_annotations(line@),
{
    string_of(&strip_annotations_exec(&chars_of(line)))
}

} // verus!
