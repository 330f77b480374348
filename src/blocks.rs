//! The brace-block skipper: finds where a multi-line type-only declaration
//! (`interface`, `enum`) ends, by counting its braces.

use crate::text::{lemma_total_len_prefix, total_len, views};
use vstd::prelude::*;

verus! {

/// The outcome of scanning one line for the braces of a block.
pub struct BraceScan {
    /// The block's braces balanced on this line.
    pub closed: bool,
    /// Braces open after the line (when not closed).
    pub depth: nat,
    /// A `{` has been seen.
    pub open: bool,
}

/// Scans `line[k..]`, given `depth` open braces and whether a `{` was seen.
/// Braces count only from the first `{`, so a `}` before it is ignored; the
/// block closes when the count comes back to zero.
pub open spec fn scan_braces(line: Seq<char>, k: int, depth: nat, open: bool) -> BraceScan
    decreases line.len() - k,
{
    if k < 0 || k >= line.len() {
        BraceScan { closed: false, depth, open }
    } else if line[k] == '{' {
        scan_braces(line, k + 1, depth + 1, true)
    } else if line[k] == '}' && open {
        if depth <= 1 {
            BraceScan { closed: true, depth: 0, open }
        } else {
            scan_braces(line, k + 1, (depth - 1) as nat, open)
        }
    } else {
        scan_braces(line, k + 1, depth, open)
    }
}

/// Index of the first line after the block, continuing at line `i` with the
/// given brace state; the number of lines when the input ends first.
pub open spec fn block_end_from(ls: Seq<Seq<char>>, i: int, depth: nat, open: bool) -> int
    decreases ls.len() - i,
{
    if i < 0 || i >= ls.len() {
        ls.len() as int
    } else {
        let r = scan_braces(ls[i], 0, depth, open);
        if r.closed {
            i + 1
        } else {
            block_end_from(ls, i + 1, r.depth, r.open)
        }
    }
}

/// Index of the first line after the block that begins at line `i`; the
/// braces of line `i` itself are counted.
pub open spec fn block_end(ls: Seq<Seq<char>>, i: int) -> int {
    block_end_from(ls, i, 0, false)
}

pub proof fn lemma_block_end_bounds(ls: Seq<Seq<char>>, i: int, depth: nat, open: bool)
    requires
        0 <= i < ls.len(),
    ensures
        i < block_end_from(ls, i, depth, open) <= ls.len(),
    decreases ls.len() - i,
{
    let r = scan_braces(ls[i], 0, depth, open);
    if !r.closed {
        if i + 1 < ls.len() {
            lemma_block_end_bounds(ls, i + 1, r.depth, r.open);
        } else {
            assert(block_end_from(ls, i + 1, r.depth, r.open) == ls.len());
        }
    }
}

/// Index of the first line after the block that begins at line `start`.
pub fn skip_block(lines: &Vec<Vec<char>>, start: usize) -> (r: usize)
    requires
        start < lines.len(),
        total_len(views(lines@)) <= usize::MAX,
    ensures
        r as int == block_end(views(lines@), start as int),
        start < r <= lines.len(),
{
    let ghost ls = views(lines@);
    proof {
        lemma_block_end_bounds(ls, start as int, 0, false);
        assert(ls.take(ls.len() as int) =~= ls);
    }
    let mut depth: usize = 0;
    let mut open = false;
    let mut i = start;
    while i < lines.len()
        invariant
            start <= i <= lines.len(),
            ls == views(lines@),
            ls.take(ls.len() as int) == ls,
            total_len(ls) <= usize::MAX,
            block_end(ls, start as int) == block_end_from(ls, i as int, depth as nat, open),
            depth <= total_len(ls.take(i as int)),
        decreases lines.len() - i,
    {
        let line = &lines[i];
        proof {
            lemma_total_len_prefix(ls, i + 1, ls.len() as int);
            assert(ls.take(i + 1).drop_last() =~= ls.take(i as int));
            assert(line@ == ls[i as int]);
            assert(total_len(ls.take(i + 1)) == total_len(ls.take(i as int)) + line.len());
        }
        let ghost d0 = depth as nat;
        let ghost o0 = open;
        let mut k: usize = 0;
        while k < line.len()
            invariant
                k <= line.len(),
                start <= i < lines.len(),
                ls == views(lines@),
                line@ == ls[i as int],
                total_len(ls.take(i + 1)) == total_len(ls.take(i as int)) + line.len(),
                total_len(ls.take(i as int)) + line.len() <= usize::MAX,
                depth <= total_len(ls.take(i as int)) + k,
                scan_braces(line@, 0, d0, o0) == scan_braces(line@, k as int, depth as nat, open),
                block_end(ls, start as int) == block_end_from(ls, i as int, d0, o0),
            decreases line.len() - k,
        {
            let c = line[k];
            if c == '{' {
                depth += 1;
                open = true;
            } else if c == '}' && open {
                if depth <= 1 {
                    return i + 1;
                }
                depth -= 1;
            }
            k += 1;
        }
        i += 1;
    }
    i
}

} // verus!
