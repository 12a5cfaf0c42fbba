use vstd::prelude::*;

use vstd::string::StringExecFns;

use crate::count::FileInfo;
use crate::totals::counts_of;
use crate::totals::lemma_totals_permutation;
use crate::totals::tally;
use crate::totals::totals_of;
use crate::totals::Counts;
use crate::width::column_width;
use crate::width::decimal;
use crate::width::decimal_len;
use crate::width::has_stdin;
use crate::width::is_stdin_name;
use crate::width::width_for;
use crate::width::Selection;

verus! {

/// Relies on `String::push`: it appends one character.
#[verifier::external_body]
fn push_char(s: &mut String, c: char)
    ensures
        final(s)@ == old(s)@.push(c),
{
    s.push(c);
}

/// `s` right-justified in a field of `w` characters.
pub open spec fn padded(s: Seq<char>, w: nat) -> Seq<char> {
    if s.len() >= w {
        s
    } else {
        Seq::new((w - s.len()) as nat, |i: int| ' ') + s
    }
}

/// One numeric field: the value right-justified in `w` characters and a space, or
/// nothing when the statistic is not shown.
pub open spec fn field(v: nat, w: nat, show: bool) -> Seq<char> {
    if show {
        padded(decimal(v), w).push(' ')
    } else {
        seq![]
    }
}

fn push_decimal(s: &mut String, v: usize)
    ensures
        final(s)@ == old(s)@ + decimal(v as nat),
    decreases v,
{
    if v >= 10 {
        push_decimal(s, v / 10);
    }
    let d = (v % 10) as u8;
    push_char(s, (48u8 + d) as char);
    assert(final(s)@ =~= old(s)@ + decimal(v as nat));
}

/// Renders one field of a result line.
pub fn format_field(value: usize, digits: usize, show: bool) -> (r: String)
    ensures
        r@ == field(value as nat, digits as nat, show),
{
    let mut s = String::new();
    if !show {
        return s;
    }
    let len = decimal_len(value);
    let mut k: usize = 0;
    while len < digits && k < digits - len
        invariant
            s@ == Seq::new(k as nat, |i: int| ' '),
            len == decimal(value as nat).len(),
            len < digits ==> k <= digits - len,
            len >= digits ==> k == 0,
        decreases digits - k,
    {
        push_char(&mut s, ' ');
        k = k + 1;
        assert(s@ =~= Seq::new(k as nat, |i: int| ' '));
    }
    assert(len < digits ==> k == digits - len);
    let ghost pad = s@;
    push_decimal(&mut s, value);
    push_char(&mut s, ' ');
    assert(pad + decimal(value as nat) =~= padded(decimal(value as nat), digits as nat));
    assert(s@ =~= field(value as nat, digits as nat, show));
    s
}

/// The name shown for an input: nothing for standard input, else the name itself.
pub open spec fn display(name: Seq<char>) -> Seq<char> {
    if is_stdin_name(name) {
        seq![]
    } else {
        name
    }
}

/// One output line: the selected fields in the order lines, words, bytes,
/// characters, then the label.
pub open spec fn row(c: Counts, sel: Selection, w: nat, label: Seq<char>) -> Seq<char> {
    field(c.lines, w, sel.lines) + field(c.words, w, sel.words) + field(c.bytes, w, sel.bytes)
        + field(c.chars, w, sel.chars) + label
}

/// The result lines of the inputs that were counted, in input order.
pub open spec fn result_lines(infos: Seq<FileInfo>, sel: Selection, w: nat) -> Seq<Seq<char>>
    decreases infos.len(),
{
    if infos.len() == 0 {
        seq![]
    } else {
        let last = infos.last();
        let before = result_lines(infos.drop_last(), sel, w);
        if last.is_failed() {
            before
        } else {
            before.push(row(counts_of(last), sel, w, display(last.filename@)))
        }
    }
}

/// The error messages of the inputs that failed, in input order.
pub open spec fn error_lines(infos: Seq<FileInfo>) -> Seq<Seq<char>>
    decreases infos.len(),
{
    if infos.len() == 0 {
        seq![]
    } else {
        let last = infos.last();
        let before = error_lines(infos.drop_last());
        if last.is_failed() {
            before.push(last.error_msg@)
        } else {
            before
        }
    }
}

/// How an input name is read and shown.
#[derive(Debug, PartialEq, Eq, Clone)]
pub struct Input {
    /// The input is standard input rather than a path.
    pub stdin: bool,
    /// The name printed after its counts.
    pub display: String,
}

/// Resolves an input name: `-` is standard input and is shown as nothing.
pub fn resolve(name: &String) -> (r: Input)
    ensures
        r.stdin == is_stdin_name(name@),
        r.display@ == display(name@),
{
    let dash = String::from_str("-");
    proof {
        reveal_strlit("-");
    }
    if *name == dash {
        Input { stdin: true, display: String::new() }
    } else {
        Input { stdin: false, display: name.clone() }
    }
}

/// Renders one output line from four counts and a label.
pub fn format_row(
    lines: usize,
    words: usize,
    bytes: usize,
    chars: usize,
    sel: Selection,
    width: usize,
    label: &str,
) -> (r: String)
    ensures
        r@ == row(
            Counts {
                lines: lines as nat,
                words: words as nat,
                bytes: bytes as nat,
                chars: chars as nat,
            },
            sel,
            width as nat,
            label@,
        ),
{
    let mut s = format_field(lines, width, sel.lines);
    s.append(format_field(words, width, sel.words).as_str());
    s.append(format_field(bytes, width, sel.bytes).as_str());
    s.append(format_field(chars, width, sel.chars).as_str());
    s.append(label);
    s
}

/// The inputs and the statistics of one run.
#[derive(Debug, Clone)]
pub struct Config {
    pub files: Vec<String>,
    pub lines: bool,
    pub words: bool,
    pub bytes: bool,
    pub chars: bool,
}

impl Config {
    /// Builds a configuration: no names means standard input alone, and no
    /// statistic selected means lines, words and bytes.
    pub fn new(files: Vec<String>, lines: bool, words: bool, bytes: bool, chars: bool) -> (r:
        Config)
        ensures
            files@.len() == 0 ==> r.files@.len() == 1 && r.files@[0]@ == "-"@,
            files@.len() > 0 ==> r.files@ == files@,
            (lines || words || bytes || chars) ==> (r.lines == lines && r.words == words
                && r.bytes == bytes && r.chars == chars),
            !(lines || words || bytes || chars) ==> (r.lines && r.words && r.bytes && !r.chars),
    {
        let files = if files.len() == 0 {
            proof {
                reveal_strlit("-");
            }
            vec![String::from_str("-")]
        } else {
            files
        };
        if lines || words || bytes || chars {
            Config { files, lines, words, bytes, chars }
        } else {
            Config { files, lines: true, words: true, bytes: true, chars: false }
        }
    }

    pub open spec fn selection(&self) -> Selection {
        Selection { lines: self.lines, words: self.words, bytes: self.bytes, chars: self.chars }
    }

    /// The selected statistics.
    pub fn select(&self) -> (r: Selection)
        ensures
            r == self.selection(),
    {
        Selection { lines: self.lines, words: self.words, bytes: self.bytes, chars: self.chars }
    }
}

/// What a run prints: lines for the result stream and for the diagnostic stream.
#[derive(Debug, PartialEq, Eq, Clone)]
pub struct Report {
    pub out: Vec<String>,
    pub err: Vec<String>,
}

/// The result lines of a report over `names`: one per counted input, then a total
/// line when more than one name was given, however many of them failed.
pub open spec fn out_lines(names: Seq<String>, sel: Selection, infos: Seq<FileInfo>) -> Seq<
    Seq<char>,
> {
    let t = totals_of(infos);
    let w = width_for(has_stdin(names), sel, t);
    result_lines(infos, sel, w) + if names.len() > 1 {
        seq![row(t, sel, w, "total"@)]
    } else {
        seq![]
    }
}

/// Lays out the report of a run from the results of its inputs, in input order.
pub fn report(config: &Config, infos: &Vec<FileInfo>) -> (r: Report)
    requires
        totals_of(infos@).fits(),
    ensures
        r.out@.map_values(|s: String| s@) == out_lines(config.files@, config.selection(), infos@),
        r.err@.map_values(|s: String| s@) == error_lines(infos@),
{
    let sel = config.select();
    let totals = match tally(infos) {
        Some(t) => t,
        // The totals fit, so the tally always succeeds here.
        None => {
            return Report { out: Vec::new(), err: Vec::new() };
        },
    };
    let width = column_width(&config.files, sel, &totals);
    let ghost w = width as nat;
    let mut out: Vec<String> = Vec::new();
    let mut err: Vec<String> = Vec::new();
    let mut i: usize = 0;
    while i < infos.len()
        invariant
            i <= infos@.len(),
            w == width,
            out@.map_values(|s: String| s@) == result_lines(infos@.take(i as int), sel, w),
            err@.map_values(|s: String| s@) == error_lines(infos@.take(i as int)),
        decreases infos@.len() - i,
    {
        let info = &infos[i];
        assert(infos@.take(i + 1).drop_last() =~= infos@.take(i as int));
        if info.has_error() {
            err.push(info.error_msg.clone());
            assert(err@.map_values(|s: String| s@) =~= error_lines(infos@.take(i + 1)));
        } else {
            let shown = resolve(&info.filename);
            let line = format_row(
                info.num_lines,
                info.num_words,
                info.num_bytes,
                info.num_chars,
                sel,
                width,
                shown.display.as_str(),
            );
            out.push(line);
            assert(out@.map_values(|s: String| s@) =~= result_lines(
                infos@.take(i + 1),
                sel,
                w,
            ));
        }
        i = i + 1;
    }
    assert(infos@.take(i as int) =~= infos@);
    if config.files.len() > 1 {
        proof {
            reveal_strlit("total");
        }
        let line = format_row(
            totals.lines,
            totals.words,
            totals.bytes,
            totals.chars,
            sel,
            width,
            "total",
        );
        out.push(line);
    }
    assert(out@.map_values(|s: String| s@) =~= out_lines(config.files@, sel, infos@));
    Report { out, err }
}

proof fn lemma_stdin_permutation(a: Seq<String>, b: Seq<String>)
    requires
        a.to_multiset() =~= b.to_multiset(),
        has_stdin(a),
    ensures
        has_stdin(b),
{
    broadcast use vstd::seq_lib::group_to_multiset_ensures;

    let i = choose|i: int| 0 <= i < a.len() && is_stdin_name(#[trigger] a[i]@);
    assert(a.contains(a[i]));
    assert(a.to_multiset().count(a[i]) > 0);
    assert(b.to_multiset().count(a[i]) > 0);
    assert(b.contains(a[i]));
    let j = choose|j: int| 0 <= j < b.len() && b[j] == a[i];
    assert(is_stdin_name(b[j]@));
}

/// Reordering the names and the results of a run changes neither the totals nor
/// the column width, so the total line stays the same.
pub proof fn lemma_total_line_order_free(
    names_a: Seq<String>,
    names_b: Seq<String>,
    infos_a: Seq<FileInfo>,
    infos_b: Seq<FileInfo>,
    sel: Selection,
)
    requires
        names_a.to_multiset() =~= names_b.to_multiset(),
        infos_a.to_multiset() =~= infos_b.to_multiset(),
    ensures
        totals_of(infos_a) == totals_of(infos_b),
        width_for(has_stdin(names_a), sel, totals_of(infos_a)) == width_for(
            has_stdin(names_b),
            sel,
            totals_of(infos_b),
        ),
        names_a.len() == names_b.len(),
        row(
            totals_of(infos_a),
            sel,
            width_for(has_stdin(names_a), sel, totals_of(infos_a)),
            "total"@,
        ) == row(
            totals_of(infos_b),
            sel,
            width_for(has_stdin(names_b), sel, totals_of(infos_b)),
            "total"@,
        ),
{
    broadcast use vstd::seq_lib::group_to_multiset_ensures;

    lemma_totals_permutation(infos_a, infos_b);
    if has_stdin(names_a) {
        lemma_stdin_permutation(names_a, names_b);
    }
    if has_stdin(names_b) {
        lemma_stdin_permutation(names_b, names_a);
    }
    assert(names_a.len() == names_a.to_multiset().len());
    assert(names_b.len() == names_b.to_multiset().len());
}

} // verus!
