use vstd::prelude::*;

use crate::count::FileInfo;

verus! {

/// Four counts as mathematical integers.
pub ghost struct Counts {
    pub lines: nat,
    pub words: nat,
    pub bytes: nat,
    pub chars: nat,
}

impl Counts {
    pub open spec fn zero() -> Counts {
        Counts { lines: 0, words: 0, bytes: 0, chars: 0 }
    }

    pub open spec fn plus(self, o: Counts) -> Counts {
        Counts {
            lines: self.lines + o.lines,
            words: self.words + o.words,
            bytes: self.bytes + o.bytes,
            chars: self.chars + o.chars,
        }
    }

    /// Every count fits in a `usize`.
    pub open spec fn fits(self) -> bool {
        self.lines <= usize::MAX && self.words <= usize::MAX && self.bytes <= usize::MAX
            && self.chars <= usize::MAX
    }
}

/// What one result adds to the totals: its counts, or nothing if it failed.
pub open spec fn counts_of(info: FileInfo) -> Counts {
    if info.is_failed() {
        Counts::zero()
    } else {
        Counts {
            lines: info.num_lines as nat,
            words: info.num_words as nat,
            bytes: info.num_bytes as nat,
            chars: info.num_chars as nat,
        }
    }
}

/// Sum of the counts of the results that did not fail.
pub open spec fn totals_of(infos: Seq<FileInfo>) -> Counts
    decreases infos.len(),
{
    if infos.len() == 0 {
        Counts::zero()
    } else {
        totals_of(infos.drop_last()).plus(counts_of(infos.last()))
    }
}

/// Running totals of the four counts.
#[derive(Debug, PartialEq, Eq, Clone, Copy)]
pub struct Totals {
    pub lines: usize,
    pub words: usize,
    pub bytes: usize,
    pub chars: usize,
}

impl View for Totals {
    type V = Counts;

    open spec fn view(&self) -> Counts {
        Counts {
            lines: self.lines as nat,
            words: self.words as nat,
            bytes: self.bytes as nat,
            chars: self.chars as nat,
        }
    }
}

impl Totals {
    pub fn new() -> (r: Totals)
        ensures
            r@ == Counts::zero(),
    {
        Totals { lines: 0, words: 0, bytes: 0, chars: 0 }
    }

    /// Folds one result into the totals; a failed result leaves them as they are.
    pub fn add(&mut self, info: &FileInfo)
        requires
            old(self)@.plus(counts_of(*info)).fits(),
        ensures
            final(self)@ == old(self)@.plus(counts_of(*info)),
    {
        if !info.has_error() {
            self.lines = self.lines + info.num_lines;
            self.words = self.words + info.num_words;
            self.bytes = self.bytes + info.num_bytes;
            self.chars = self.chars + info.num_chars;
        }
    }
}

/// Each total of a prefix is at most the total of the whole sequence.
proof fn lemma_totals_prefix(infos: Seq<FileInfo>, i: int)
    requires
        0 <= i <= infos.len(),
    ensures
        totals_of(infos.take(i)).lines <= totals_of(infos).lines,
        totals_of(infos.take(i)).words <= totals_of(infos).words,
        totals_of(infos.take(i)).bytes <= totals_of(infos).bytes,
        totals_of(infos.take(i)).chars <= totals_of(infos).chars,
    decreases infos.len(),
{
    if i < infos.len() {
        assert(infos.drop_last().take(i) =~= infos.take(i));
        lemma_totals_prefix(infos.drop_last(), i);
    } else {
        assert(infos.take(i) =~= infos);
    }
}

/// Sums the counts of all results that did not fail, in input order.
///
/// Gives `None` exactly when some total does not fit in a `usize`.
pub fn tally(infos: &Vec<FileInfo>) -> (r: Option<Totals>)
    ensures
        r is Some <==> totals_of(infos@).fits(),
        r matches Some(t) ==> t@ == totals_of(infos@),
{
    let mut t = Totals::new();
    let mut i: usize = 0;
    while i < infos.len()
        invariant
            i <= infos@.len(),
            t@ == totals_of(infos@.take(i as int)),
        decreases infos@.len() - i,
    {
        let info = &infos[i];
        assert(infos@.take(i + 1).drop_last() =~= infos@.take(i as int));
        let ghost next = totals_of(infos@.take(i + 1));
        let failed = info.has_error();
        let l = if failed { Some(t.lines) } else { t.lines.checked_add(info.num_lines) };
        let w = if failed { Some(t.words) } else { t.words.checked_add(info.num_words) };
        let b = if failed { Some(t.bytes) } else { t.bytes.checked_add(info.num_bytes) };
        let c = if failed { Some(t.chars) } else { t.chars.checked_add(info.num_chars) };
        match (l, w, b, c) {
            (Some(_), Some(_), Some(_), Some(_)) => {
                t.add(info);
            },
            _ => {
                proof {
                    lemma_totals_prefix(infos@, i + 1);
                }
                return None;
            },
        }
        i = i + 1;
    }
    assert(infos@.take(i as int) =~= infos@);
    Some(t)
}

/// Taking one result out of the sequence takes its counts out of the totals.
proof fn lemma_totals_remove(infos: Seq<FileInfo>, j: int)
    requires
        0 <= j < infos.len(),
    ensures
        totals_of(infos) == totals_of(infos.remove(j)).plus(counts_of(infos[j])),
    decreases infos.len(),
{
    if j < infos.len() - 1 {
        let rest = infos.drop_last();
        assert(infos.remove(j).drop_last() =~= rest.remove(j));
        assert(infos.remove(j).last() == infos.last());
        lemma_totals_remove(rest, j);
    } else {
        assert(infos.remove(j) =~= infos.drop_last());
    }
}

/// The totals do not depend on the order of the results: two sequences that hold
/// the same results, each as many times, have the same totals.
pub proof fn lemma_totals_permutation(a: Seq<FileInfo>, b: Seq<FileInfo>)
    requires
        a.to_multiset() =~= b.to_multiset(),
    ensures
        totals_of(a) == totals_of(b),
    decreases a.len(),
{
    broadcast use vstd::seq_lib::group_to_multiset_ensures;

    if a.len() == 0 {
        assert(b.to_multiset().len() == 0);
        assert(b.len() == 0);
    } else {
        let x = a.last();
        assert(a.to_multiset().count(x) > 0) by {
            assert(a.contains(x));
        }
        assert(b.contains(x));
        let j = choose|j: int| 0 <= j < b.len() && b[j] == x;
        assert(a =~= a.drop_last().push(x));
        assert(a.drop_last().to_multiset() =~= a.to_multiset().remove(x));
        assert(b.remove(j).to_multiset() =~= b.to_multiset().remove(x));
        lemma_totals_permutation(a.drop_last(), b.remove(j));
        lemma_totals_remove(b, j);
    }
}

} // verus!
