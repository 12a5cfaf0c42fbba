use vstd::prelude::*;
use vstd::string::StrSliceExecFns;

verus! {

pub open spec fn is_digit(c: char) -> bool {
    '0' <= c <= '9'
}

/// Value of a string of decimal digits.
pub open spec fn digits_value(s: Seq<char>) -> nat
    decreases s.len(),
{
    if s.len() == 0 {
        0
    } else {
        digits_value(s.drop_last()) * 10 + (s.last() as nat - 48) as nat
    }
}

/// The text after an optional leading `+`.
pub open spec fn unsigned_part(s: Seq<char>) -> Seq<char> {
    if s.len() > 0 && s[0] == '+' {
        s.drop_first()
    } else {
        s
    }
}

/// `s` is an optional `+` followed by one or more decimal digits.
pub open spec fn is_unsigned(s: Seq<char>) -> bool {
    let d = unsigned_part(s);
    d.len() > 0 && forall|i: int| 0 <= i < d.len() ==> is_digit(#[trigger] d[i])
}

/// `s` is a positive integer that fits in a `usize`.
pub open spec fn is_positive_usize(s: Seq<char>) -> bool {
    is_unsigned(s) && 0 < digits_value(unsigned_part(s)) <= usize::MAX
}

proof fn lemma_digits_value_grows(s: Seq<char>, c: char)
    requires
        is_digit(c),
    ensures
        digits_value(s.push(c)) >= digits_value(s),
        digits_value(s.push(c)) == digits_value(s) * 10 + (c as nat - 48),
{
    assert(s.push(c).drop_last() =~= s);
}

/// Reads a decimal value, failing on anything but digits or on a value that does
/// not fit.
fn read_digits(d: &str) -> (r: Option<usize>)
    requires
        d@.len() <= usize::MAX,
    ensures
        r is Some <==> (forall|i: int| 0 <= i < d@.len() ==> is_digit(#[trigger] d@[i]))
            && digits_value(d@) <= usize::MAX,
        r matches Some(n) ==> n == digits_value(d@),
{
    let ghost s = d@;
    let mut value: usize = 0;
    let mut too_big = false;
    for c in it: d.chars()
        invariant
            it.seq() == s,
            s == d@,
            forall|i: int| 0 <= i < it.index() ==> is_digit(#[trigger] s[i]),
            !too_big ==> value == digits_value(s.take(it.index() as int)),
            too_big ==> digits_value(s.take(it.index() as int)) > usize::MAX,
    {
        let ghost i = it.index() as int;
        if !('0' <= c && c <= '9') {
            assert(0 <= i < d@.len() && !is_digit(d@[i]));
            return None;
        }
        assert(s.take(i + 1) =~= s.take(i).push(c));
        proof {
            lemma_digits_value_grows(s.take(i), c);
        }
        if !too_big {
            let d = (c as u32 - 48) as usize;
            match value.checked_mul(10) {
                Some(m) => match m.checked_add(d) {
                    Some(v) => {
                        value = v;
                    },
                    None => {
                        too_big = true;
                    },
                },
                None => {
                    too_big = true;
                },
            }
        }
    }
    assert(s.take(s.len() as int) =~= s);
    if too_big {
        None
    } else {
        Some(value)
    }
}

/// Parses a positive integer; on failure the error is the text itself.
pub fn parse_positive_int(val: &str) -> (r: Result<usize, String>)
    ensures
        r is Ok <==> is_positive_usize(val@),
        r matches Ok(n) ==> n == digits_value(unsigned_part(val@)),
        r matches Err(e) ==> e@ == val@,
{
    let n = val.unicode_len();
    let digits = if n > 0 && val.get_char(0) == '+' {
        val.substring_char(1, n)
    } else {
        val
    };
    proof {
        if n > 0 && val@[0] == '+' {
            assert(digits@ =~= val@.drop_first());
        }
    }
    match read_digits(digits) {
        Some(v) => {
            if v > 0 {
                Ok(v)
            } else {
                Err(val.to_owned())
            }
        },
        None => Err(val.to_owned()),
    }
}

} // verus!
