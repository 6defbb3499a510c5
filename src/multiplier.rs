//! The scale a table header announces near its first mention of dollars.
//!
//! The first line whose upper-cased text names dollars is the anchor. The
//! window is up to three lines starting one line before the anchor; when the
//! anchor is the very first line, the window starts at the anchor itself.
//! The first window line that names a unit decides the scale, THOUSAND being
//! tested before MILLION and MILLION before BILLION on each line. With no
//! anchor, or no unit in the window, the scale is one.

use crate::text::{
    has_dollar_term, regex_is_match, seq_contains, str_contains, to_upper, upper_of,
    dollar_pattern,
};
use vstd::prelude::*;

verus! {

/// The texts of the header lines.
pub open spec fn lines_of(v: Seq<String>) -> Seq<Seq<char>> {
    v.map_values(|s: String| s@)
}

/// One of the four scales the library can report.
pub open spec fn is_scale(m: u32) -> bool {
    m == 1 || m == 1000 || m == 1000000 || m == 1000000000
}

/// The unit an upper-cased line names: the first of THOUSAND, MILLION and
/// BILLION that it contains, in that order.
pub open spec fn unit_of(u: Seq<char>) -> Option<u32> {
    if seq_contains(u, "THOUSAND"@) {
        Some(1000u32)
    } else if seq_contains(u, "MILLION"@) {
        Some(1000000u32)
    } else if seq_contains(u, "BILLION"@) {
        Some(1000000000u32)
    } else {
        None
    }
}

/// The line names dollars, whatever its case.
pub open spec fn is_anchor(line: Seq<char>) -> bool {
    has_dollar_term(upper_of(line))
}

/// `a` is the position of the first line that names dollars.
pub open spec fn is_first_anchor(h: Seq<Seq<char>>, a: int) -> bool {
    &&& 0 <= a < h.len()
    &&& is_anchor(h[a])
    &&& forall|j: int| 0 <= j < a ==> !is_anchor(#[trigger] h[j])
}

/// The first line at or after `i` that names dollars, if any.
pub open spec fn first_anchor_from(h: Seq<Seq<char>>, i: int) -> Option<int>
    decreases h.len() - i,
{
    if 0 <= i < h.len() {
        if is_anchor(h[i]) {
            Some(i)
        } else {
            first_anchor_from(h, i + 1)
        }
    } else {
        None
    }
}

/// Where the window round the anchor at `a` starts: one line before it,
/// or the anchor itself when it is the first line.
pub open spec fn window_start(a: int) -> int {
    if a >= 1 {
        a - 1
    } else {
        0
    }
}

/// Where the window round the anchor at `a` ends (exclusive): three lines
/// after its start, or the end of the header if that comes sooner.
pub open spec fn window_end(h: Seq<Seq<char>>, a: int) -> int {
    if window_start(a) + 3 <= h.len() {
        window_start(a) + 3
    } else {
        h.len() as int
    }
}

/// The unit of the first of the lines `k..end` that names one, else one.
pub open spec fn scan_units(h: Seq<Seq<char>>, k: int, end: int) -> u32
    decreases end - k,
{
    if 0 <= k < end && k < h.len() {
        match unit_of(upper_of(h[k])) {
            Some(m) => m,
            None => scan_units(h, k + 1, end),
        }
    } else {
        1
    }
}

/// The scale announced by the header `h`.
pub open spec fn multiplier_of(h: Seq<Seq<char>>) -> u32 {
    match first_anchor_from(h, 0) {
        Some(a) => scan_units(h, window_start(a), window_end(h, a)),
        None => 1,
    }
}

/// Finds the scale (1, 1000, 1000000 or 1000000000) that a table header
/// announces next to its first mention of dollars.
pub fn find_multiplier(table_header: &Vec<String>) -> (r: u32)
    ensures
        r == multiplier_of(lines_of(table_header@)),
        is_scale(r),
{
    let ghost h = lines_of(table_header@);
    proof {
        lemma_multiplier_is_scale(h);
    }
    let pattern = "DOLLAR|USD|\\$";
    let n = table_header.len();
    let mut index: usize = 0;
    let mut found = false;
    while index < n
        invariant_except_break
            index <= n,
            !found,
            first_anchor_from(h, 0) == first_anchor_from(h, index as int),
        invariant
            n == table_header.len(),
            h == lines_of(table_header@),
            pattern@ == dollar_pattern(),
        ensures
            found ==> index < n && first_anchor_from(h, 0) == Some(index as int),
            !found ==> first_anchor_from(h, 0) == None::<int>,
        decreases n - index,
    {
        let upper = to_upper(table_header[index].as_str());
        if regex_is_match(pattern, upper.as_str()) {
            found = true;
            break;
        }
        index = index + 1;
    }
    if !found {
        return 1;
    }
    let start: usize = if index >= 1 {
        index - 1
    } else {
        0
    };
    let end: usize = if n - start >= 3 {
        start + 3
    } else {
        n
    };
    assert(multiplier_of(h) == scan_units(h, start as int, end as int));
    let mut k: usize = start;
    while k < end
        invariant
            k <= end <= n,
            n == table_header.len(),
            h == lines_of(table_header@),
            multiplier_of(h) == scan_units(h, k as int, end as int),
        decreases end - k,
    {
        let upper = to_upper(table_header[k].as_str());
        let u = upper.as_str();
        if str_contains(u, "THOUSAND") {
            return 1000;
        }
        if str_contains(u, "MILLION") {
            return 1000000;
        }
        if str_contains(u, "BILLION") {
            return 1000000000;
        }
        k = k + 1;
    }
    1
}

proof fn lemma_scan_is_scale(h: Seq<Seq<char>>, k: int, end: int)
    ensures
        is_scale(scan_units(h, k, end)),
    decreases end - k,
{
    if 0 <= k < end && k < h.len() {
        lemma_scan_is_scale(h, k + 1, end);
    }
}

/// Every header announces one of the four scales.
pub proof fn lemma_multiplier_is_scale(h: Seq<Seq<char>>)
    ensures
        is_scale(multiplier_of(h)),
{
    if let Some(a) = first_anchor_from(h, 0) {
        lemma_scan_is_scale(h, window_start(a), window_end(h, a));
    }
}

proof fn lemma_first_anchor_from_none(h: Seq<Seq<char>>, i: int)
    requires
        0 <= i,
        forall|j: int| i <= j < h.len() ==> !is_anchor(#[trigger] h[j]),
    ensures
        first_anchor_from(h, i) == None::<int>,
    decreases h.len() - i,
{
    if i < h.len() {
        lemma_first_anchor_from_none(h, i + 1);
    }
}

proof fn lemma_first_anchor_from_some(h: Seq<Seq<char>>, a: int, i: int)
    requires
        is_first_anchor(h, a),
        0 <= i <= a,
    ensures
        first_anchor_from(h, i) == Some(a),
    decreases a - i,
{
    if i < a {
        lemma_first_anchor_from_some(h, a, i + 1);
    }
}

/// The header whose first dollar line is at `a` announces the scale of the
/// window round `a`.
pub proof fn lemma_multiplier_at_anchor(h: Seq<Seq<char>>, a: int)
    requires
        is_first_anchor(h, a),
    ensures
        multiplier_of(h) == scan_units(h, window_start(a), window_end(h, a)),
{
    lemma_first_anchor_from_some(h, a, 0);
}

/// A header with no line that names dollars, the empty header included,
/// announces a scale of one.
pub proof fn lemma_no_anchor_gives_one(h: Seq<Seq<char>>)
    requires
        forall|j: int| 0 <= j < h.len() ==> !is_anchor(#[trigger] h[j]),
    ensures
        multiplier_of(h) == 1,
{
    lemma_first_anchor_from_none(h, 0);
}

proof fn lemma_scan_none(h: Seq<Seq<char>>, k: int, end: int)
    requires
        forall|j: int| k <= j < end && 0 <= j < h.len() ==> unit_of(upper_of(#[trigger] h[j]))
            == None::<u32>,
    ensures
        scan_units(h, k, end) == 1,
    decreases end - k,
{
    if 0 <= k < end && k < h.len() {
        lemma_scan_none(h, k + 1, end);
    }
}

/// When no line of the window round the first dollar line names a unit, the
/// scale is one.
pub proof fn lemma_no_unit_in_window_gives_one(h: Seq<Seq<char>>, a: int)
    requires
        is_first_anchor(h, a),
        forall|j: int|
            window_start(a) <= j < window_end(h, a) ==> unit_of(upper_of(#[trigger] h[j]))
                == None::<u32>,
    ensures
        multiplier_of(h) == 1,
{
    lemma_multiplier_at_anchor(h, a);
    lemma_scan_none(h, window_start(a), window_end(h, a));
}

proof fn lemma_first_anchor_same_upper(x: Seq<Seq<char>>, y: Seq<Seq<char>>, i: int)
    requires
        x.len() == y.len(),
        forall|j: int| 0 <= j < x.len() ==> upper_of(#[trigger] x[j]) == upper_of(y[j]),
    ensures
        first_anchor_from(x, i) == first_anchor_from(y, i),
    decreases x.len() - i,
{
    if 0 <= i < x.len() {
        lemma_first_anchor_same_upper(x, y, i + 1);
    }
}

proof fn lemma_scan_same_upper(x: Seq<Seq<char>>, y: Seq<Seq<char>>, k: int, end: int)
    requires
        x.len() == y.len(),
        forall|j: int| 0 <= j < x.len() ==> upper_of(#[trigger] x[j]) == upper_of(y[j]),
    ensures
        scan_units(x, k, end) == scan_units(y, k, end),
    decreases end - k,
{
    if 0 <= k < end && k < x.len() {
        lemma_scan_same_upper(x, y, k + 1, end);
    }
}

/// Case does not matter: two headers whose lines agree once upper-cased
/// announce the same scale.
pub proof fn lemma_case_insensitive(x: Seq<Seq<char>>, y: Seq<Seq<char>>)
    requires
        x.len() == y.len(),
        forall|j: int| 0 <= j < x.len() ==> upper_of(#[trigger] x[j]) == upper_of(y[j]),
    ensures
        multiplier_of(x) == multiplier_of(y),
{
    lemma_first_anchor_same_upper(x, y, 0);
    if let Some(a) = first_anchor_from(x, 0) {
        lemma_scan_same_upper(x, y, window_start(a), window_end(x, a));
    }
}

/// MILLION is tested before BILLION: a one-line header that names dollars,
/// MILLION and BILLION, and not THOUSAND, announces a million.
pub proof fn lemma_million_before_billion(line: Seq<char>)
    requires
        is_anchor(line),
        seq_contains(upper_of(line), "MILLION"@),
        seq_contains(upper_of(line), "BILLION"@),
        !seq_contains(upper_of(line), "THOUSAND"@),
    ensures
        multiplier_of(seq![line]) == 1000000,
{
    let h = seq![line];
    assert(is_first_anchor(h, 0));
    lemma_multiplier_at_anchor(h, 0);
}

/// An earlier window line wins: when the line before the first dollar line
/// names THOUSAND and the line after it names BILLION, the scale is a
/// thousand.
pub proof fn lemma_earlier_window_line_wins(h: Seq<Seq<char>>, a: int)
    requires
        is_first_anchor(h, a),
        a >= 1,
        a + 1 < h.len(),
        seq_contains(upper_of(h[a - 1]), "THOUSAND"@),
        seq_contains(upper_of(h[a + 1]), "BILLION"@),
    ensures
        multiplier_of(h) == 1000,
{
    lemma_multiplier_at_anchor(h, a);
}

} // verus!
