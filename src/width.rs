use vstd::prelude::*;
use vstd::string::StringExecFns;

use crate::totals::Counts;
use crate::totals::Totals;

verus! {

/// Which of the four statistics are shown.
#[derive(Debug, PartialEq, Eq, Clone, Copy)]
pub struct Selection {
    pub lines: bool,
    pub words: bool,
    pub bytes: bool,
    pub chars: bool,
}

/// The name `-` stands for standard input.
pub open spec fn is_stdin_name(name: Seq<char>) -> bool {
    name == "-"@
}

/// Some name of the list stands for standard input.
pub open spec fn has_stdin(names: Seq<String>) -> bool {
    exists|i: int| 0 <= i < names.len() && is_stdin_name(#[trigger] names[i]@)
}

/// The decimal digit `d`.
pub open spec fn digit_char(d: nat) -> char {
    (48 + d) as char
}

/// Decimal notation of `v`, without leading zeros.
pub open spec fn decimal(v: nat) -> Seq<char>
    decreases v,
{
    if v < 10 {
        seq![digit_char(v)]
    } else {
        decimal(v / 10).push(digit_char(v % 10))
    }
}

pub open spec fn flag(b: bool) -> nat {
    if b {
        1
    } else {
        0
    }
}

/// How many statistics are selected.
pub open spec fn selected_count(sel: Selection) -> nat {
    flag(sel.lines) + flag(sel.words) + flag(sel.bytes) + flag(sel.chars)
}

/// The count of a statistic if it is selected, else zero.
pub open spec fn if_shown(show: bool, v: nat) -> nat {
    if show {
        v
    } else {
        0
    }
}

pub open spec fn max_nat(a: nat, b: nat) -> nat {
    if a >= b {
        a
    } else {
        b
    }
}

/// Largest selected total (zero when none is selected).
pub open spec fn selected_max(sel: Selection, t: Counts) -> nat {
    max_nat(
        max_nat(if_shown(sel.lines, t.lines), if_shown(sel.words, t.words)),
        max_nat(if_shown(sel.bytes, t.bytes), if_shown(sel.chars, t.chars)),
    )
}

/// Sum of the selected totals.
pub open spec fn selected_sum(sel: Selection, t: Counts) -> nat {
    if_shown(sel.lines, t.lines) + if_shown(sel.words, t.words) + if_shown(sel.bytes, t.bytes)
        + if_shown(sel.chars, t.chars)
}

/// The column width shared by every number of one report.
///
/// Standard input among the names fixes it at 7. Otherwise it is the length of the
/// largest selected total in decimal (0 when nothing is selected or all selected
/// totals are zero), raised to at least 1 when one statistic is selected or all
/// selected totals are zero, and to at least 2 otherwise.
pub open spec fn width_for(stdin: bool, sel: Selection, t: Counts) -> nat {
    if stdin {
        7
    } else {
        let base = if selected_count(sel) == 0 || selected_sum(sel, t) == 0 {
            0
        } else {
            decimal(selected_max(sel, t)).len()
        };
        let floor: nat = if selected_count(sel) == 1 {
            1
        } else if selected_sum(sel, t) == 0 {
            1
        } else {
            2
        };
        max_nat(base, floor)
    }
}

/// Number of decimal digits of `v`.
pub fn decimal_len(v: usize) -> (r: usize)
    ensures
        r == decimal(v as nat).len(),
    decreases v,
{
    if v < 10 {
        1
    } else {
        let n = decimal_len(v / 10);
        proof {
            lemma_decimal_len_bound((v / 10) as nat);
        }
        n + 1
    }
}

/// A decimal never has more digits than its value.
proof fn lemma_decimal_len_bound(v: nat)
    ensures
        decimal(v).len() <= v + 1,
    decreases v,
{
    if v >= 10 {
        lemma_decimal_len_bound(v / 10);
    }
}

/// Tells whether some name stands for standard input.
pub fn names_stdin(names: &Vec<String>) -> (r: bool)
    ensures
        r == has_stdin(names@),
{
    let dash = String::from_str("-");
    proof {
        reveal_strlit("-");
    }
    let mut i: usize = 0;
    while i < names.len()
        invariant
            i <= names@.len(),
            dash@ == "-"@,
            forall|j: int| 0 <= j < i ==> !is_stdin_name(#[trigger] names@[j]@),
        decreases names@.len() - i,
    {
        if names[i] == dash {
            return true;
        }
        i = i + 1;
    }
    false
}

/// Resolves the column width for a report over `names` with totals `totals`.
pub fn column_width(names: &Vec<String>, sel: Selection, totals: &Totals) -> (r: usize)
    ensures
        r == width_for(has_stdin(names@), sel, totals@),
{
    if names_stdin(names) {
        return 7;
    }
    let l = if sel.lines { totals.lines } else { 0 };
    let w = if sel.words { totals.words } else { 0 };
    let b = if sel.bytes { totals.bytes } else { 0 };
    let c = if sel.chars { totals.chars } else { 0 };
    let top_lw = if l >= w { l } else { w };
    let top_bc = if b >= c { b } else { c };
    let top = if top_lw >= top_bc { top_lw } else { top_bc };
    let n: usize = (if sel.lines { 1usize } else { 0 }) + (if sel.words { 1usize } else { 0 }) + (
    if sel.bytes { 1usize } else { 0 }) + (if sel.chars { 1usize } else { 0 });
    let all_zero = l == 0 && w == 0 && b == 0 && c == 0;
    let base = if n == 0 || all_zero { 0 } else { decimal_len(top) };
    let floor: usize = if n == 1 { 1 } else if all_zero { 1 } else { 2 };
    if base >= floor { base } else { floor }
}

} // verus!
