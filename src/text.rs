use vstd::prelude::*;

verus! {

/// Unicode `White_Space` code points, the set that `char::is_whitespace` tests.
pub open spec fn is_space(c: char) -> bool {
    let u = c as u32;
    (0x09 <= u <= 0x0d) || u == 0x20 || u == 0x85 || u == 0xa0 || u == 0x1680
        || (0x2000 <= u <= 0x200a) || u == 0x2028 || u == 0x2029 || u == 0x202f
        || u == 0x205f || u == 0x3000
}

/// Number of newline characters in `s`.
pub open spec fn newline_count(s: Seq<char>) -> nat
    decreases s.len(),
{
    if s.len() == 0 {
        0
    } else {
        newline_count(s.drop_last()) + if s.last() == '\n' { 1nat } else { 0nat }
    }
}

/// Number of lines: one per newline, plus one for a final line without a terminator.
pub open spec fn line_count(s: Seq<char>) -> nat {
    newline_count(s) + if s.len() > 0 && s.last() != '\n' { 1nat } else { 0nat }
}

/// Position `i` of `s` starts a word: a non-space character at the start or after a space.
pub open spec fn starts_word(s: Seq<char>, i: int) -> bool {
    !is_space(s[i]) && (i == 0 || is_space(s[i - 1]))
}

/// Number of maximal runs of non-space characters in `s`.
pub open spec fn word_count(s: Seq<char>) -> nat
    decreases s.len(),
{
    if s.len() == 0 {
        0
    } else {
        word_count(s.drop_last()) + if starts_word(s, s.len() - 1) { 1nat } else { 0nat }
    }
}

/// `l` is one line as a line read gives it: not empty, with a newline at most at its end.
pub open spec fn is_line(l: Seq<char>) -> bool {
    l.len() > 0 && forall|j: int| 0 <= j < l.len() - 1 ==> l[j] != '\n'
}

/// `l` ends with a newline.
pub open spec fn is_terminated(l: Seq<char>) -> bool {
    l.len() > 0 && l.last() == '\n'
}

/// `ls` is a text cut into its lines: each ends with a newline but possibly the last.
pub open spec fn are_lines(ls: Seq<Seq<char>>) -> bool {
    &&& forall|i: int| 0 <= i < ls.len() ==> is_line(#[trigger] ls[i])
    &&& forall|i: int| 0 <= i < ls.len() - 1 ==> is_terminated(#[trigger] ls[i])
}

/// Sum of the word counts of the pieces.
pub open spec fn words_per_piece(ls: Seq<Seq<char>>) -> nat
    decreases ls.len(),
{
    if ls.len() == 0 {
        0
    } else {
        word_count(ls[0]) + words_per_piece(ls.drop_first())
    }
}

proof fn lemma_newline_count_concat(a: Seq<char>, b: Seq<char>)
    ensures
        newline_count(a + b) == newline_count(a) + newline_count(b),
    decreases b.len(),
{
    if b.len() == 0 {
        assert(a + b =~= a);
    } else {
        assert((a + b).drop_last() =~= a + b.drop_last());
        lemma_newline_count_concat(a, b.drop_last());
    }
}

proof fn lemma_newline_count_none(s: Seq<char>)
    requires
        forall|j: int| 0 <= j < s.len() ==> s[j] != '\n',
    ensures
        newline_count(s) == 0,
    decreases s.len(),
{
    if s.len() > 0 {
        lemma_newline_count_none(s.drop_last());
    }
}

/// A text of N lines, each ending with a newline but possibly the last, counts
/// exactly N lines.
pub proof fn lemma_line_count_of_lines(ls: Seq<Seq<char>>)
    requires
        are_lines(ls),
    ensures
        line_count(ls.flatten()) == ls.len(),
    decreases ls.len(),
{
    if ls.len() > 0 {
        let l = ls[0];
        let rest = ls.drop_first();
        assert(is_line(l));
        assert forall|i: int| 0 <= i < rest.len() implies is_line(#[trigger] rest[i]) by {
            assert(rest[i] == ls[i + 1]);
        }
        assert forall|i: int| 0 <= i < rest.len() - 1 implies is_terminated(#[trigger] rest[i]) by {
            assert(rest[i] == ls[i + 1]);
        }
        lemma_line_count_of_lines(rest);
        lemma_newline_count_none(l.drop_last());
        assert(l =~= l.drop_last().push(l.last()));
        lemma_newline_count_concat(l, rest.flatten());
        if rest.len() == 0 {
            assert(ls.flatten() =~= l);
        } else {
            assert(is_terminated(ls[0]));
            let f = rest.flatten();
            if f.len() > 0 {
                assert((l + f).last() == f.last());
            } else {
                assert(l + f =~= l);
            }
        }
    }
}

/// Cutting a text after a space leaves its word count unchanged: the words of the
/// two parts add up to the words of the whole.
pub proof fn lemma_word_count_split(a: Seq<char>, b: Seq<char>)
    requires
        a.len() == 0 || is_space(a.last()),
    ensures
        word_count(a + b) == word_count(a) + word_count(b),
    decreases b.len(),
{
    if b.len() == 0 {
        assert(a + b =~= a);
    } else {
        assert((a + b).drop_last() =~= a + b.drop_last());
        lemma_word_count_split(a, b.drop_last());
        let k = (a + b).len() - 1;
        assert((a + b)[k] == b.last());
        if b.len() > 1 {
            assert((a + b)[k - 1] == b[b.len() - 2]);
        }
    }
}

/// The word count of a text is the sum of the word counts of its lines: how the
/// text is cut into lines does not change it.
pub proof fn lemma_word_count_of_lines(ls: Seq<Seq<char>>)
    requires
        are_lines(ls),
    ensures
        word_count(ls.flatten()) == words_per_piece(ls),
    decreases ls.len(),
{
    if ls.len() > 0 {
        let l = ls[0];
        let rest = ls.drop_first();
        assert forall|i: int| 0 <= i < rest.len() implies is_line(#[trigger] rest[i]) by {
            assert(rest[i] == ls[i + 1]);
        }
        assert forall|i: int| 0 <= i < rest.len() - 1 implies is_terminated(#[trigger] rest[i]) by {
            assert(rest[i] == ls[i + 1]);
        }
        lemma_word_count_of_lines(rest);
        if rest.len() == 0 {
            assert(ls.flatten() =~= l);
            assert(rest.flatten() =~= Seq::<char>::empty());
        } else {
            assert(is_terminated(ls[0]));
            lemma_word_count_split(l, rest.flatten());
        }
    }
}

/// Tests a character against the `White_Space` set.
pub fn is_space_char(c: char) -> (r: bool)
    ensures
        r == is_space(c),
{
    let u = c as u32;
    (0x09 <= u && u <= 0x0d) || u == 0x20 || u == 0x85 || u == 0xa0 || u == 0x1680 || (0x2000
        <= u && u <= 0x200a) || u == 0x2028 || u == 0x2029 || u == 0x202f || u == 0x205f || u
        == 0x3000
}

/// Line and word counts of a text, in one pass over its characters.
pub fn lines_and_words(text: &str) -> (r: (usize, usize))
    requires
        text@.len() <= usize::MAX,
    ensures
        r.0 == line_count(text@),
        r.1 == word_count(text@),
{
    let mut newlines: usize = 0;
    let mut words: usize = 0;
    let mut last: Option<char> = None;
    let ghost s = text@;
    for c in it: text.chars()
        invariant
            it.seq() == s,
            s.len() <= usize::MAX,
            newlines == newline_count(s.take(it.index() as int)),
            words == word_count(s.take(it.index() as int)),
            newlines <= it.index(),
            it.index() > 0 && s[it.index() - 1] != '\n' ==> newlines < it.index(),
            words <= it.index(),
            it.index() == 0 ==> last is None,
            it.index() > 0 ==> last == Some(s[it.index() - 1]),
    {
        let ghost i = it.index() as int;
        let ghost p = s.take(i + 1);
        assert(p.drop_last() =~= s.take(i));
        if c == '\n' {
            newlines = newlines + 1;
        }
        let sp = is_space_char(c);
        let begins = match last {
            None => !sp,
            Some(d) => !sp && is_space_char(d),
        };
        if begins {
            words = words + 1;
        }
        last = Some(c);
    }
    proof {
        assert(s.take(s.len() as int) =~= s);
    }
    let tail: usize = match last {
        None => 0,
        Some(d) => if d == '\n' { 0 } else { 1 },
    };
    (newlines + tail, words)
}

} // verus!
