//! Character-sequence primitives shared by the rewriters: whitespace,
//! trimming, substring search, line splitting and joining.

use vstd::prelude::*;
use vstd::std_specs::iter::IteratorSpec;

verus! {

/// The Unicode `White_Space` characters, the set that `str::trim` removes.
pub open spec fn is_ws(c: char) -> bool {
    c == ' ' || ('\t' <= c && c <= '\r') || c == '\u{85}' || c == '\u{A0}' || c == '\u{1680}'
        || ('\u{2000}' <= c && c <= '\u{200A}') || c == '\u{2028}' || c == '\u{2029}'
        || c == '\u{202F}' || c == '\u{205F}' || c == '\u{3000}'
}

pub fn is_whitespace_char(c: char) -> (r: bool)
    ensures
        r == is_ws(c),
{
    c == ' ' || ('\t' <= c && c <= '\r') || c == '\u{85}' || c == '\u{A0}' || c == '\u{1680}'
        || ('\u{2000}' <= c && c <= '\u{200A}') || c == '\u{2028}' || c == '\u{2029}'
        || c == '\u{202F}' || c == '\u{205F}' || c == '\u{3000}'
}

/// Index of the first non-whitespace character at or after `i`, or the length.
pub open spec fn skip_ws(s: Seq<char>, i: int) -> int
    decreases s.len() - i,
{
    if i >= s.len() {
        s.len() as int
    } else if is_ws(s[i]) {
        skip_ws(s, i + 1)
    } else {
        i
    }
}

/// Index of the first whitespace character at or after `i`, or the length.
pub open spec fn ws_pos(s: Seq<char>, i: int) -> int
    decreases s.len() - i,
{
    if i >= s.len() {
        s.len() as int
    } else if is_ws(s[i]) {
        i
    } else {
        ws_pos(s, i + 1)
    }
}

/// Start of the run of non-whitespace characters that ends just before `j`.
pub open spec fn back_non_ws(s: Seq<char>, j: int) -> int
    decreases j,
{
    if j <= 0 {
        0
    } else if !is_ws(s[j - 1]) {
        back_non_ws(s, j - 1)
    } else {
        j
    }
}

pub fn ws_pos_exec(s: &Vec<char>, i: usize) -> (r: usize)
    requires
        i <= s.len(),
    ensures
        r as int == ws_pos(s@, i as int),
        i <= r <= s.len(),
{
    let mut k = i;
    while k < s.len() && !is_whitespace_char(s[k])
        invariant
            i <= k <= s.len(),
            ws_pos(s@, k as int) == ws_pos(s@, i as int),
        decreases s.len() - k,
    {
        k += 1;
    }
    k
}

pub fn back_non_ws_exec(s: &Vec<char>, j: usize) -> (r: usize)
    requires
        j <= s.len(),
    ensures
        r as int == back_non_ws(s@, j as int),
        r <= j,
{
    let mut k = j;
    while k > 0 && !is_whitespace_char(s[k - 1])
        invariant
            k <= j <= s.len(),
            back_non_ws(s@, k as int) == back_non_ws(s@, j as int),
        decreases k,
    {
        k -= 1;
    }
    k
}

/// Start of the run of whitespace that ends just before `j`.
pub open spec fn back_ws(s: Seq<char>, j: int) -> int
    decreases j,
{
    if j <= 0 {
        0
    } else if is_ws(s[j - 1]) {
        back_ws(s, j - 1)
    } else {
        j
    }
}

pub open spec fn trim_start(s: Seq<char>) -> Seq<char> {
    s.subrange(skip_ws(s, 0), s.len() as int)
}

pub open spec fn trim_end(s: Seq<char>) -> Seq<char> {
    s.subrange(0, back_ws(s, s.len() as int))
}

pub open spec fn trim(s: Seq<char>) -> Seq<char> {
    trim_end(trim_start(s))
}

pub proof fn lemma_back_ws_bounds(s: Seq<char>, j: int)
    requires
        0 <= j <= s.len(),
    ensures
        0 <= back_ws(s, j) <= j,
        forall|k: int| back_ws(s, j) <= k < j ==> is_ws(#[trigger] s[k]),
        back_ws(s, j) > 0 ==> !is_ws(s[back_ws(s, j) - 1]),
    decreases j,
{
    if j > 0 && is_ws(s[j - 1]) {
        lemma_back_ws_bounds(s, j - 1);
    }
}

pub fn skip_ws_exec(s: &Vec<char>, i: usize) -> (r: usize)
    requires
        i <= s.len(),
    ensures
        r as int == skip_ws(s@, i as int),
        i <= r <= s.len(),
{
    let mut k = i;
    while k < s.len() && is_whitespace_char(s[k])
        invariant
            i <= k <= s.len(),
            skip_ws(s@, k as int) == skip_ws(s@, i as int),
        decreases s.len() - k,
    {
        k += 1;
    }
    k
}

pub fn back_ws_exec(s: &Vec<char>, j: usize) -> (r: usize)
    requires
        j <= s.len(),
    ensures
        r as int == back_ws(s@, j as int),
        r <= j,
{
    let mut k = j;
    while k > 0 && is_whitespace_char(s[k - 1])
        invariant
            k <= j <= s.len(),
            back_ws(s@, k as int) == back_ws(s@, j as int),
        decreases k,
    {
        k -= 1;
    }
    k
}

/// The characters `s[lo..hi]` as a new vector.
pub fn copy_range(s: &Vec<char>, lo: usize, hi: usize) -> (r: Vec<char>)
    requires
        lo <= hi <= s.len(),
    ensures
        r@ == s@.subrange(lo as int, hi as int),
{
    let mut r: Vec<char> = Vec::new();
    let mut k = lo;
    while k < hi
        invariant
            lo <= k <= hi <= s.len(),
            r@ == s@.subrange(lo as int, k as int),
        decreases hi - k,
    {
        r.push(s[k]);
        k += 1;
        assert(r@ =~= s@.subrange(lo as int, k as int));
    }
    r
}

/// Appends `s[lo..hi]` to `out`.
pub fn append_range(out: &mut Vec<char>, s: &Vec<char>, lo: usize, hi: usize)
    requires
        lo <= hi <= s.len(),
    ensures
        final(out)@ == old(out)@ + s@.subrange(lo as int, hi as int),
{
    let ghost start = out@;
    let mut k = lo;
    while k < hi
        invariant
            lo <= k <= hi <= s.len(),
            out@ == start + s@.subrange(lo as int, k as int),
        decreases hi - k,
    {
        out.push(s[k]);
        k += 1;
        assert(out@ =~= start + s@.subrange(lo as int, k as int));
    }
}

/// Appends all of `s` to `out`.
pub fn append_all(out: &mut Vec<char>, s: &Vec<char>)
    ensures
        final(out)@ == old(out)@ + s@,
{
    append_range(out, s, 0, s.len());
    assert(s@.subrange(0, s@.len() as int) =~= s@);
}

/// `a + b` as a new vector.
pub fn concat(a: &Vec<char>, b: &Vec<char>) -> (r: Vec<char>)
    ensures
        r@ == a@ + b@,
{
    let mut r = copy_range(a, 0, a.len());
    assert(r@ =~= a@);
    append_all(&mut r, b);
    r
}

pub fn trim_start_exec(s: &Vec<char>) -> (r: Vec<char>)
    ensures
        r@ == trim_start(s@),
{
    let lo = skip_ws_exec(s, 0);
    copy_range(s, lo, s.len())
}

pub fn trim_end_exec(s: &Vec<char>) -> (r: Vec<char>)
    ensures
        r@ == trim_end(s@),
{
    let hi = back_ws_exec(s, s.len());
    copy_range(s, 0, hi)
}

pub fn trim_exec(s: &Vec<char>) -> (r: Vec<char>)
    ensures
        r@ == trim(s@),
{
    let t = trim_start_exec(s);
    trim_end_exec(&t)
}

/// `p` occurs in `s` starting at index `i`.
pub open spec fn match_at(s: Seq<char>, p: Seq<char>, i: int) -> bool {
    0 <= i && i + p.len() <= s.len() && s.subrange(i, i + p.len()) == p
}

/// Index of the first occurrence of `p` at or after `i`, or the length of `s`.
pub open spec fn find_from(s: Seq<char>, p: Seq<char>, i: int) -> int
    decreases s.len() - i,
{
    if i >= s.len() {
        s.len() as int
    } else if match_at(s, p, i) {
        i
    } else {
        find_from(s, p, i + 1)
    }
}

/// `s` holds a (non-empty) `p` somewhere.
pub open spec fn contains(s: Seq<char>, p: Seq<char>) -> bool {
    find_from(s, p, 0) < s.len()
}

pub open spec fn starts_with(s: Seq<char>, p: Seq<char>) -> bool {
    match_at(s, p, 0)
}

pub open spec fn ends_with(s: Seq<char>, p: Seq<char>) -> bool {
    p.len() <= s.len() && match_at(s, p, s.len() - p.len())
}

/// Index of the last `c` before `j`, or -1.
pub open spec fn rfind_char(s: Seq<char>, c: char, j: int) -> int
    decreases j,
{
    if j <= 0 {
        -1
    } else if s[j - 1] == c {
        j - 1
    } else {
        rfind_char(s, c, j - 1)
    }
}

pub proof fn lemma_find_from_bounds(s: Seq<char>, p: Seq<char>, i: int)
    requires
        0 <= i <= s.len(),
    ensures
        i <= find_from(s, p, i) <= s.len(),
        find_from(s, p, i) < s.len() ==> match_at(s, p, find_from(s, p, i)),
        forall|k: int| i <= k < find_from(s, p, i) ==> !#[trigger] match_at(s, p, k),
    decreases s.len() - i,
{
    if i < s.len() && !match_at(s, p, i) {
        lemma_find_from_bounds(s, p, i + 1);
    }
}

pub proof fn lemma_rfind_bounds(s: Seq<char>, c: char, j: int)
    requires
        0 <= j <= s.len(),
    ensures
        -1 <= rfind_char(s, c, j) < j,
        rfind_char(s, c, j) >= 0 ==> s[rfind_char(s, c, j)] == c,
    decreases j,
{
    if j > 0 && s[j - 1] != c {
        lemma_rfind_bounds(s, c, j - 1);
    }
}

/// An occurrence of a non-empty `p` means `s` contains it.
pub proof fn lemma_match_contains(s: Seq<char>, p: Seq<char>, j: int)
    requires
        p.len() > 0,
        match_at(s, p, j),
    ensures
        contains(s, p),
{
    lemma_find_from_bounds(s, p, 0);
}

/// What a slice of `s` contains, `s` contains.
pub proof fn lemma_subrange_contains(s: Seq<char>, a: int, b: int, p: Seq<char>)
    requires
        0 <= a <= b <= s.len(),
        p.len() > 0,
        contains(s.subrange(a, b), p),
    ensures
        contains(s, p),
{
    let t = s.subrange(a, b);
    lemma_find_from_bounds(t, p, 0);
    let j = find_from(t, p, 0);
    assert(s.subrange(a + j, a + j + p.len()) =~= t.subrange(j, j + p.len()));
    lemma_match_contains(s, p, a + j);
}

pub proof fn lemma_skip_ws_bounds(s: Seq<char>, i: int)
    requires
        0 <= i <= s.len(),
    ensures
        i <= skip_ws(s, i) <= s.len(),
    decreases s.len() - i,
{
    if i < s.len() && is_ws(s[i]) {
        lemma_skip_ws_bounds(s, i + 1);
    }
}

/// A trimmed line that starts with a non-empty `p` contains it.
pub proof fn lemma_trim_starts_contains(l: Seq<char>, p: Seq<char>)
    requires
        p.len() > 0,
        starts_with(trim(l), p),
    ensures
        contains(l, p),
{
    let w = skip_ws(l, 0);
    lemma_skip_ws_bounds(l, 0);
    let t = trim_start(l);
    lemma_back_ws_bounds(t, t.len() as int);
    lemma_match_contains(trim(l), p, 0);
    lemma_subrange_contains(t, 0, back_ws(t, t.len() as int), p);
    lemma_subrange_contains(l, w, l.len() as int, p);
}

proof fn lemma_lines_from_contains(s: Seq<char>, start: int, i: int, p: Seq<char>)
    requires
        0 <= start <= i <= s.len(),
        p.len() > 0,
    ensures
        forall|k: int|
            0 <= k < lines_from(s, start, i).len() && contains(#[trigger] lines_from(s, start, i)[k], p)
                ==> contains(s, p),
    decreases s.len() - i,
{
    if i >= s.len() {
        if start < s.len() {
            if contains(s.subrange(start, s.len() as int), p) {
                lemma_subrange_contains(s, start, s.len() as int, p);
            }
            assert(lines_from(s, start, i)[0] == s.subrange(start, s.len() as int));
        } else {
            assert(lines_from(s, start, i).len() == 0);
        }
    } else if s[i] == '\n' {
        lemma_lines_from_contains(s, i + 1, i + 1, p);
        let first = strip_cr(s.subrange(start, i));
        if contains(first, p) {
            if first.len() < i - start {
                assert(first =~= s.subrange(start, i - 1));
                lemma_subrange_contains(s, start, i - 1, p);
            } else {
                lemma_subrange_contains(s, start, i, p);
            }
        }
        let rest = lines_from(s, i + 1, i + 1);
        assert forall|k: int|
            0 <= k < lines_from(s, start, i).len() && contains(#[trigger] lines_from(s, start, i)[k], p)
                implies contains(s, p) by {
            if k > 0 {
                assert(lines_from(s, start, i)[k] == rest[k - 1]);
            } else {
                assert(lines_from(s, start, i)[0] == first);
            }
        }
    } else {
        lemma_lines_from_contains(s, start, i + 1, p);
        assert(lines_from(s, start, i) == lines_from(s, start, i + 1));
        assert forall|k: int|
            0 <= k < lines_from(s, start, i).len() && contains(#[trigger] lines_from(s, start, i)[k], p)
                implies contains(s, p) by {
            assert(lines_from(s, start, i)[k] == lines_from(s, start, i + 1)[k]);
        }
    }
}

/// A line of a text contains only what the text contains.
pub proof fn lemma_line_contains(s: Seq<char>, k: int, p: Seq<char>)
    requires
        p.len() > 0,
        0 <= k < split_lines(s).len(),
        contains(split_lines(s)[k], p),
    ensures
        contains(s, p),
{
    lemma_lines_from_contains(s, 0, 0, p);
}

/// An occurrence of a `p` without a line break in joined lines lies in one
/// of the lines.
pub proof fn lemma_join_contains(ls: Seq<Seq<char>>, p: Seq<char>)
    requires
        p.len() > 0,
        forall|m: int| 0 <= m < p.len() ==> #[trigger] p[m] != '\n',
        contains(join_lines(ls), p),
    ensures
        exists|k: int| 0 <= k < ls.len() && contains(#[trigger] ls[k], p),
    decreases ls.len(),
{
    if ls.len() == 1 {
        assert(contains(ls[0], p));
    } else if ls.len() > 1 {
        let init = ls.drop_last();
        let a = join_lines(init);
        let last = ls.last();
        let x = join_lines(ls);
        assert(x == a + seq!['\n'] + last);
        lemma_find_from_bounds(x, p, 0);
        let j = find_from(x, p, 0);
        if j + p.len() <= a.len() {
            assert(a.subrange(j, j + p.len()) =~= x.subrange(j, j + p.len()));
            lemma_match_contains(a, p, j);
            lemma_join_contains(init, p);
            let k = choose|k: int| 0 <= k < init.len() && contains(#[trigger] init[k], p);
            assert(ls[k] == init[k]);
        } else if j > a.len() {
            let j2 = j - a.len() - 1;
            assert(last.subrange(j2, j2 + p.len()) =~= x.subrange(j, j + p.len()));
            lemma_match_contains(last, p, j2);
            assert(ls[ls.len() - 1] == last);
        } else {
            assert(x[a.len() as int] == '\n');
            assert(p[a.len() - j] == x.subrange(j, j + p.len())[a.len() - j]);
        }
    }
}

pub fn matches_at(s: &Vec<char>, p: &Vec<char>, i: usize) -> (r: bool)
    ensures
        r == match_at(s@, p@, i as int),
{
    if i > s.len() || p.len() > s.len() - i {
        return false;
    }
    let mut k: usize = 0;
    while k < p.len()
        invariant
            i + p.len() <= s.len(),
            k <= p.len(),
            forall|m: int| 0 <= m < k ==> s@[i + m] == p@[m],
        decreases p.len() - k,
    {
        if s[i + k] != p[k] {
            assert(s@.subrange(i as int, i + p.len())[k as int] != p@[k as int]);
            return false;
        }
        k += 1;
    }
    assert(s@.subrange(i as int, i + p.len()) =~= p@);
    true
}

pub fn find_exec(s: &Vec<char>, p: &Vec<char>, i: usize) -> (r: usize)
    requires
        i <= s.len(),
    ensures
        r as int == find_from(s@, p@, i as int),
        i <= r <= s.len(),
{
    let mut k = i;
    while k < s.len() && !matches_at(s, p, k)
        invariant
            i <= k <= s.len(),
            find_from(s@, p@, k as int) == find_from(s@, p@, i as int),
        decreases s.len() - k,
    {
        k += 1;
    }
    k
}

pub fn contains_exec(s: &Vec<char>, p: &Vec<char>) -> (r: bool)
    ensures
        r == contains(s@, p@),
{
    find_exec(s, p, 0) < s.len()
}

pub fn starts_with_exec(s: &Vec<char>, p: &Vec<char>) -> (r: bool)
    ensures
        r == starts_with(s@, p@),
{
    matches_at(s, p, 0)
}

pub fn ends_with_exec(s: &Vec<char>, p: &Vec<char>) -> (r: bool)
    ensures
        r == ends_with(s@, p@),
{
    p.len() <= s.len() && matches_at(s, p, s.len() - p.len())
}

pub fn rfind_char_exec(s: &Vec<char>, c: char) -> (r: Option<usize>)
    ensures
        r is Some <==> rfind_char(s@, c, s@.len() as int) >= 0,
        r is Some ==> r->0 as int == rfind_char(s@, c, s@.len() as int),
{
    let mut j = s.len();
    while j > 0 && s[j - 1] != c
        invariant
            j <= s.len(),
            rfind_char(s@, c, j as int) == rfind_char(s@, c, s@.len() as int),
        decreases j,
    {
        j -= 1;
    }
    if j == 0 {
        None
    } else {
        Some(j - 1)
    }
}

/// Every non-overlapping occurrence of `p` in `s[i..]`, scanning from the
/// left, replaced by `r` (what `str::replace` does).
pub open spec fn replace_from(s: Seq<char>, p: Seq<char>, r: Seq<char>, i: int) -> Seq<char>
    decreases s.len() - i,
{
    if i >= s.len() {
        seq![]
    } else if p.len() > 0 && match_at(s, p, i) {
        r + replace_from(s, p, r, i + p.len())
    } else {
        seq![s[i]] + replace_from(s, p, r, i + 1)
    }
}

pub open spec fn replace_all(s: Seq<char>, p: Seq<char>, r: Seq<char>) -> Seq<char> {
    replace_from(s, p, r, 0)
}

pub fn replace_exec(s: &Vec<char>, p: &Vec<char>, r: &Vec<char>) -> (out: Vec<char>)
    ensures
        out@ == replace_all(s@, p@, r@),
{
    let mut out: Vec<char> = Vec::new();
    let mut i: usize = 0;
    while i < s.len()
        invariant
            i <= s.len(),
            out@ + replace_from(s@, p@, r@, i as int) == replace_all(s@, p@, r@),
        decreases s.len() - i,
    {
        let ghost before = out@;
        if p.len() > 0 && matches_at(s, p, i) {
            append_all(&mut out, r);
            assert(before + replace_from(s@, p@, r@, i as int) == out@ + replace_from(
                s@,
                p@,
                r@,
                i + p.len(),
            )) by {
                assert(before + (r@ + replace_from(s@, p@, r@, i + p.len())) =~= (before + r@)
                    + replace_from(s@, p@, r@, i + p.len()));
            }
            i += p.len();
        } else {
            out.push(s[i]);
            assert(before + (seq![s@[i as int]] + replace_from(s@, p@, r@, i + 1)) =~= out@
                + replace_from(s@, p@, r@, i + 1));
            i += 1;
        }
    }
    assert(out@ + replace_from(s@, p@, r@, i as int) =~= out@);
    out
}

/// The character sequences held by a vector of lines.
pub open spec fn views(v: Seq<Vec<char>>) -> Seq<Seq<char>> {
    v.map_values(|l: Vec<char>| l@)
}

/// A line without the carriage return of a `\r\n` ending.
pub open spec fn strip_cr(line: Seq<char>) -> Seq<char> {
    if line.len() > 0 && line.last() == '\r' {
        line.drop_last()
    } else {
        line
    }
}

/// The lines of `s[start..]` as `str::lines` yields them, given that the
/// current line began at `start` and the scan has reached `i`: lines end at
/// `\n` (a `\r` before it is dropped), and a final `\n` opens no empty line.
pub open spec fn lines_from(s: Seq<char>, start: int, i: int) -> Seq<Seq<char>>
    decreases s.len() - i,
{
    if i >= s.len() {
        if start < s.len() {
            seq![s.subrange(start, s.len() as int)]
        } else {
            seq![]
        }
    } else if s[i] == '\n' {
        seq![strip_cr(s.subrange(start, i))] + lines_from(s, i + 1, i + 1)
    } else {
        lines_from(s, start, i + 1)
    }
}

pub open spec fn split_lines(s: Seq<char>) -> Seq<Seq<char>> {
    lines_from(s, 0, 0)
}

/// The lines joined with `\n` between them.
pub open spec fn join_lines(ls: Seq<Seq<char>>) -> Seq<char>
    decreases ls.len(),
{
    if ls.len() == 0 {
        seq![]
    } else if ls.len() == 1 {
        ls[0]
    } else {
        join_lines(ls.drop_last()) + seq!['\n'] + ls.last()
    }
}

/// Total number of characters in the lines.
pub open spec fn total_len(ls: Seq<Seq<char>>) -> nat
    decreases ls.len(),
{
    if ls.len() == 0 {
        0
    } else {
        total_len(ls.drop_last()) + ls.last().len()
    }
}

pub proof fn lemma_total_len_prefix(ls: Seq<Seq<char>>, a: int, b: int)
    requires
        0 <= a <= b <= ls.len(),
    ensures
        total_len(ls.take(a)) <= total_len(ls.take(b)),
    decreases b - a,
{
    if a < b {
        lemma_total_len_prefix(ls, a, b - 1);
        assert(ls.take(b).drop_last() =~= ls.take(b - 1));
    }
}

pub proof fn lemma_total_len_push(ls: Seq<Seq<char>>, l: Seq<char>)
    ensures
        total_len(ls.push(l)) == total_len(ls) + l.len(),
{
    assert(ls.push(l).drop_last() =~= ls);
}

proof fn lemma_lines_from_total(s: Seq<char>, start: int, i: int)
    requires
        0 <= start <= i <= s.len(),
    ensures
        total_len(lines_from(s, start, i)) <= s.len() - start,
    decreases s.len() - i,
{
    if i >= s.len() {
        if start < s.len() {
            lemma_total_len_push(seq![], s.subrange(start, s.len() as int));
            assert(seq![].push(s.subrange(start, s.len() as int)) =~= seq![s.subrange(start, s.len() as int)]);
        }
    } else if s[i] == '\n' {
        lemma_lines_from_total(s, i + 1, i + 1);
        lemma_total_len_concat(seq![strip_cr(s.subrange(start, i))], lines_from(s, i + 1, i + 1));
        lemma_total_len_push(seq![], strip_cr(s.subrange(start, i)));
        assert(seq![].push(strip_cr(s.subrange(start, i))) =~= seq![strip_cr(s.subrange(start, i))]);
    } else {
        lemma_lines_from_total(s, start, i + 1);
    }
}

pub proof fn lemma_total_len_concat(a: Seq<Seq<char>>, b: Seq<Seq<char>>)
    ensures
        total_len(a + b) == total_len(a) + total_len(b),
    decreases b.len(),
{
    if b.len() == 0 {
        assert(a + b =~= a);
    } else {
        lemma_total_len_concat(a, b.drop_last());
        assert((a + b).drop_last() =~= a + b.drop_last());
    }
}

/// The lines of a text hold no more characters than the text.
pub proof fn lemma_split_lines_total(s: Seq<char>)
    ensures
        total_len(split_lines(s)) <= s.len(),
{
    lemma_lines_from_total(s, 0, 0);
}

pub fn split_lines_exec(s: &Vec<char>) -> (r: Vec<Vec<char>>)
    ensures
        views(r@) == split_lines(s@),
{
    let mut out: Vec<Vec<char>> = Vec::new();
    let mut start: usize = 0;
    let mut i: usize = 0;
    while i < s.len()
        invariant
            start <= i <= s.len(),
            split_lines(s@) == views(out@) + lines_from(s@, start as int, i as int),
        decreases s.len() - i,
    {
        if s[i] == '\n' {
            let mut line = copy_range(s, start, i);
            if line.len() > 0 && line[line.len() - 1] == '\r' {
                line.pop();
            }
            assert(line@ == strip_cr(s@.subrange(start as int, i as int)));
            let ghost before = views(out@);
            out.push(line);
            assert(views(out@) =~= before.push(line@));
            assert(split_lines(s@) == views(out@) + lines_from(s@, (i + 1) as int, (i + 1) as int));
            start = i + 1;
        }
        i += 1;
    }
    if start < s.len() {
        let line = copy_range(s, start, s.len());
        let ghost before = views(out@);
        out.push(line);
        assert(views(out@) =~= before + seq![line@]);
    } else {
        assert(views(out@) =~= views(out@) + seq![]);
    }
    out
}

pub fn join_lines_exec(ls: &Vec<Vec<char>>) -> (r: Vec<char>)
    ensures
        r@ == join_lines(views(ls@)),
{
    let mut out: Vec<char> = Vec::new();
    let mut k: usize = 0;
    while k < ls.len()
        invariant
            k <= ls.len(),
            out@ == join_lines(views(ls@).take(k as int)),
        decreases ls.len() - k,
    {
        if k > 0 {
            out.push('\n');
        }
        append_all(&mut out, &ls[k]);
        let ghost t = views(ls@).take((k + 1) as int);
        assert(t.drop_last() =~= views(ls@).take(k as int));
        k += 1;
    }
    assert(views(ls@).take(k as int) =~= views(ls@));
    out
}

pub fn same_chars(a: &Vec<char>, b: &Vec<char>) -> (r: bool)
    ensures
        r == (a@ == b@),
{
    if a.len() != b.len() {
        return false;
    }
    let mut k: usize = 0;
    while k < a.len()
        invariant
            k <= a.len() == b.len(),
            forall|m: int| 0 <= m < k ==> a@[m] == b@[m],
        decreases a.len() - k,
    {
        if a[k] != b[k] {
            return false;
        }
        k += 1;
    }
    assert(a@ =~= b@);
    true
}

/// Relies on `String::push`: appends one character at the end.
#[verifier::external_body]
fn push_char(s: &mut String, c: char)
    ensures
        final(s)@ == old(s)@.push(c),
{
    s.push(c)
}

/// Relies on `String::push_str`: appends the text at the end.
#[verifier::external_body]
pub(crate) fn push_str(s: &mut String, t: &str)
    ensures
        final(s)@ == old(s)@ + t@,
{
    s.push_str(t)
}

/// The characters of a string, in order.
pub fn chars_of(s: &str) -> (r: Vec<char>)
    ensures
        r@ == s@,
{
    broadcast use vstd::string::group_string_axioms;

    let mut it = s.chars();
    let mut v: Vec<char> = Vec::new();
    assert(it.obeys_prophetic_iter_laws());
    loop
        invariant
            it.obeys_prophetic_iter_laws(),
            it.decrease() is Some,
            v@ + it.remaining() == s@,
        decreases it.decrease()->0,
    {
        match it.next() {
            Some(c) => {
                v.push(c);
                assert(v@ + it.remaining() =~= s@);
            },
            None => {
                assert(v@ =~= s@);
                return v;
            },
        }
    }
}

pub fn string_of(v: &Vec<char>) -> (r: String)
    ensures
        r@ == v@,
{
    let mut r = String::new();
    let mut k: usize = 0;
    while k < v.len()
        invariant
            k <= v.len(),
            r@ == v@.take(k as int),
        decreases v.len() - k,
    {
        push_char(&mut r, v[k]);
        k += 1;
        assert(r@ =~= v@.take(k as int));
    }
    assert(v@.take(k as int) =~= v@);
    r
}

} // verus!
