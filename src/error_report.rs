//! The report shown for an engine error: a guess at the offending line and
//! a listing of the lines around it.

use crate::env_parser::{decimal, decimal_exec};
use crate::text::{
    append_all, chars_of, contains, contains_exec, lemma_split_lines_total, lemma_total_len_prefix,
    split_lines, split_lines_exec, starts_with, starts_with_exec, string_of, total_len, trim,
    trim_exec, trim_start, trim_start_exec, views,
};
use vstd::prelude::*;
use vstd::utf8::encode_utf8;

verus! {

/// Opening minus closing braces in `line[k..]`.
pub open spec fn brace_delta_from(line: Seq<char>, k: int) -> int
    decreases line.len() - k,
{
    if k < 0 || k >= line.len() {
        0
    } else {
        (if line[k] == '{' {
            1int
        } else if line[k] == '}' {
            -1int
        } else {
            0int
        }) + brace_delta_from(line, k + 1)
    }
}

/// A line that an unclosed brace before it makes a likely place for the
/// error: it starts with `return` or `}`, or mentions `const` or `function`.
pub open spec fn likely_error_start(next: Seq<char>) -> bool {
    let t = trim(next);
    t.len() > 0 && (starts_with(t, "return"@) || starts_with(t, "}"@) || contains(t, "const"@)
        || contains(t, "function"@))
}

/// The 1-based line after the first line at or after `i` that leaves braces
/// open (counting from `count`) and is followed by a likely error start; 1
/// when there is none.
pub open spec fn error_line_from(ls: Seq<Seq<char>>, i: int, count: int) -> int
    decreases ls.len() - i,
{
    if i < 0 || i >= ls.len() {
        1
    } else {
        let c = count + brace_delta_from(ls[i], 0);
        if c > 0 && i + 1 < ls.len() && likely_error_start(ls[i + 1]) {
            i + 2
        } else {
            error_line_from(ls, i + 1, c)
        }
    }
}

/// The line an engine error most likely points at: only an "Unexpected
/// token" error is searched for an unclosed brace; otherwise line 1.
pub open spec fn syntax_error_line(source: Seq<char>, error: Seq<char>) -> int {
    if contains(error, "Unexpected token"@) {
        error_line_from(split_lines(source), 0, 0)
    } else {
        1
    }
}

proof fn lemma_error_line_bounds(ls: Seq<Seq<char>>, i: int, count: int)
    requires
        0 <= i <= ls.len(),
    ensures
        1 <= error_line_from(ls, i, count),
        error_line_from(ls, i, count) <= ls.len() || error_line_from(ls, i, count) == 1,
    decreases ls.len() - i,
{
    if i < ls.len() {
        let c = count + brace_delta_from(ls[i], 0);
        if !(c > 0 && i + 1 < ls.len() && likely_error_start(ls[i + 1])) {
            lemma_error_line_bounds(ls, i + 1, c);
        }
    }
}

fn likely_error_start_exec(next: &Vec<char>) -> (r: bool)
    ensures
        r == likely_error_start(next@),
{
    let t = trim_exec(next);
    t.len() > 0 && (starts_with_exec(&t, &chars_of("return")) || starts_with_exec(
        &t,
        &chars_of("}"),
    ) || contains_exec(&t, &chars_of("const")) || contains_exec(&t, &chars_of("function")))
}

fn error_line_exec(ls: &Vec<Vec<char>>) -> (r: usize)
    requires
        total_len(views(ls@)) <= usize::MAX,
    ensures
        r as int == error_line_from(views(ls@), 0, 0),
{
    let ghost v = views(ls@);
    proof {
        assert(v.take(v.len() as int) =~= v);
    }
    let mut opens: usize = 0;
    let mut closes: usize = 0;
    let mut i: usize = 0;
    while i < ls.len()
        invariant
            i <= ls.len(),
            v == views(ls@),
            v.take(v.len() as int) == v,
            total_len(v) <= usize::MAX,
            opens <= total_len(v.take(i as int)),
            closes <= total_len(v.take(i as int)),
            error_line_from(v, 0, 0) == error_line_from(v, i as int, opens - closes),
        decreases ls.len() - i,
    {
        let line = &ls[i];
        proof {
            lemma_total_len_prefix(v, i + 1, v.len() as int);
            assert(v.take(i + 1).drop_last() =~= v.take(i as int));
        }
        let ghost o0 = opens;
        let ghost c0 = closes;
        let mut k: usize = 0;
        while k < line.len()
            invariant
                k <= line.len(),
                i < ls.len(),
                v == views(ls@),
                line@ == v[i as int],
                total_len(v.take(i + 1)) == total_len(v.take(i as int)) + line.len(),
                total_len(v.take(i + 1)) <= usize::MAX,
                opens <= total_len(v.take(i as int)) + k,
                closes <= total_len(v.take(i as int)) + k,
                brace_delta_from(line@, 0) == (opens - o0) - (closes - c0) + brace_delta_from(
                    line@,
                    k as int,
                ),
            decreases line.len() - k,
        {
            if line[k] == '{' {
                opens += 1;
            } else if line[k] == '}' {
                closes += 1;
            }
            k += 1;
        }
        if opens > closes && i + 1 < ls.len() && likely_error_start_exec(&ls[i + 1]) {
            return i + 2;
        }
        i += 1;
    }
    1
}

/// Guesses the 1-based line of a syntax error in `source_code`.
pub fn find_syntax_error_line(source_code: &str, error: &str) -> (r: usize)
    ensures
        r as int == syntax_error_line(source_code@, error@),
{
    if !contains_exec(&chars_of(error), &chars_of("Unexpected token")) {
        return 1;
    }
    let src = chars_of(source_code);
    let ls = split_lines_exec(&src);
    proof {
        lemma_split_lines_total(src@);
        assert(src@.len() == src.len());
    }
    error_line_exec(&ls)
}

/// A line number right-aligned in three columns.
pub open spec fn pad3(n: nat) -> Seq<char> {
    let d = decimal(n);
    if d.len() >= 3 {
        d
    } else {
        Seq::new((3 - d.len()) as nat, |i: int| ' ') + d
    }
}

/// The marker under the error line: one `^` per byte of the line without
/// its indentation, or a single one for a blank line.
pub open spec fn pointer(content: Seq<char>) -> Seq<char> {
    let n = encode_utf8(trim_start(content)).len();
    if trim(content).len() == 0 || n == 0 {
        seq!['^']
    } else {
        Seq::new(n, |i: int| '^')
    }
}

/// The listing row of line `i` (1-based), marked when it is the error line.
pub open spec fn context_row(ls: Seq<Seq<char>>, i: int, err: int) -> Seq<char> {
    let content = ls[i - 1];
    let row = "  "@ + (if i == err {
        ">"@
    } else {
        " "@
    }) + " "@ + pad3(i as nat) + " | "@ + content + "\n"@;
    if i == err {
        row + "      | "@ + pointer(content) + "\n"@
    } else {
        row
    }
}

/// The rows of lines `i` to `end`.
pub open spec fn context_rows(ls: Seq<Seq<char>>, i: int, end: int, err: int) -> Seq<char>
    decreases end + 1 - i,
{
    if i > end {
        seq![]
    } else {
        context_row(ls, i, err) + context_rows(ls, i + 1, end, err)
    }
}

/// The report of an engine error: the message, the guessed location, and
/// the lines from two before to two after it.
pub open spec fn error_report(error: Seq<char>, source: Seq<char>, filename: Seq<char>) -> Seq<char> {
    let ls = split_lines(source);
    let err = syntax_error_line(source, error);
    let start = if err > 2 {
        err - 2
    } else {
        1
    };
    let end = if err + 2 <= ls.len() {
        err + 2
    } else {
        ls.len() as int
    };
    "\n"@ + error + "\n"@ + "    at "@ + filename + ":"@ + decimal(err as nat) + "\n\n"@
        + context_rows(ls, start, end, err)
}

fn pad3_exec(n: usize) -> (r: Vec<char>)
    ensures
        r@ == pad3(n as nat),
{
    let d = decimal_exec(n);
    if d.len() >= 3 {
        d
    } else {
        let mut r: Vec<char> = Vec::new();
        let pad = 3 - d.len();
        let mut k: usize = 0;
        while k < pad
            invariant
                k <= pad,
                pad == 3 - d@.len(),
                r@ == Seq::new(k as nat, |i: int| ' '),
            decreases pad - k,
        {
            r.push(' ');
            k += 1;
            assert(r@ =~= Seq::new(k as nat, |i: int| ' '));
        }
        append_all(&mut r, &d);
        r
    }
}

fn pointer_exec(content: &Vec<char>) -> (r: Vec<char>)
    ensures
        r@ == pointer(content@),
{
    let lead = string_of(&trim_start_exec(content));
    let n = lead.as_str().as_bytes().len();
    let blank = trim_exec(content).len() == 0;
    let mut r: Vec<char> = Vec::new();
    if blank || n == 0 {
        r.push('^');
        assert(r@ =~= seq!['^']);
        return r;
    }
    let mut k: usize = 0;
    while k < n
        invariant
            k <= n,
            r@ == Seq::new(k as nat, |i: int| '^'),
        decreases n - k,
    {
        r.push('^');
        k += 1;
        assert(r@ =~= Seq::new(k as nat, |i: int| '^'));
    }
    r
}

fn context_row_exec(ls: &Vec<Vec<char>>, i: usize, err: usize) -> (r: Vec<char>)
    requires
        1 <= i <= ls.len(),
    ensures
        r@ == context_row(views(ls@), i as int, err as int),
{
    let content = &ls[i - 1];
    let mut r = chars_of("  ");
    if i == err {
        append_all(&mut r, &chars_of(">"));
    } else {
        append_all(&mut r, &chars_of(" "));
    }
    append_all(&mut r, &chars_of(" "));
    append_all(&mut r, &pad3_exec(i));
    append_all(&mut r, &chars_of(" | "));
    append_all(&mut r, content);
    append_all(&mut r, &chars_of("\n"));
    if i == err {
        append_all(&mut r, &chars_of("      | "));
        append_all(&mut r, &pointer_exec(content));
        append_all(&mut r, &chars_of("\n"));
    }
    r
}

/// Formats the report of an engine error raised by `source_code`.
pub fn format_error(error: &str, source_code: &str, filename: &str) -> (r: String)
    ensures
        r@ == error_report(error@, source_code@, filename@),
{
    let err = find_syntax_error_line(source_code, error);
    let ls = split_lines_exec(&chars_of(source_code));
    let ghost v = views(ls@);
    proof {
        if contains(error@, "Unexpected token"@) {
            lemma_error_line_bounds(v, 0, 0);
        }
    }
    let start = if err > 2 {
        err - 2
    } else {
        1
    };
    let end = if err <= ls.len() && ls.len() - err >= 2 {
        err + 2
    } else {
        ls.len()
    };
    let mut out = chars_of("\n");
    append_all(&mut out, &chars_of(error));
    append_all(&mut out, &chars_of("\n"));
    append_all(&mut out, &chars_of("    at "));
    append_all(&mut out, &chars_of(filename));
    append_all(&mut out, &chars_of(":"));
    append_all(&mut out, &decimal_exec(err));
    append_all(&mut out, &chars_of("\n\n"));
    let ghost head = out@;
    let mut k = start - 1;
    while k < end
        invariant
            1 <= start,
            start - 1 <= k,
            end <= ls.len(),
            k <= end || k == start - 1,
            v == views(ls@),
            head + context_rows(v, start as int, end as int, err as int) == out@ + context_rows(
                v,
                k + 1,
                end as int,
                err as int,
            ),
        decreases end - k,
    {
        let row = context_row_exec(&ls, k + 1, err);
        let ghost out0 = out@;
        append_all(&mut out, &row);
        assert(out0 + context_rows(v, k + 1, end as int, err as int) =~= out@ + context_rows(
            v,
            k + 2,
            end as int,
            err as int,
        ));
        k += 1;
    }
    assert(out@ + context_rows(v, k + 1, end as int, err as int) =~= out@);
    string_of(&out)
}

} // verus!
