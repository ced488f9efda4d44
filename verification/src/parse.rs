//! Parsing of the textual arguments: a pair of values split at the first
//! occurrence of a separator character, and the decimal unsigned values
//! that fill such a pair. Both halves must parse for the pair to parse;
//! a missing separator or a malformed half yields nothing.

use vstd::prelude::*;

verus! {

/// Index of the first occurrence of `sep` in `s`, if there is one.
pub open spec fn sep_index(s: Seq<char>, sep: char) -> Option<int>
    decreases s.len(),
{
    if s.len() == 0 {
        None
    } else if s[0] == sep {
        Some(0)
    } else {
        match sep_index(s.subrange(1, s.len() as int), sep) {
            Some(i) => Some(i + 1),
            None => None,
        }
    }
}

/// `sep_index` yields the one index that carries `sep` with none of it
/// before, and nothing exactly when `sep` does not occur at all.
pub proof fn lemma_sep_index(s: Seq<char>, sep: char)
    ensures
        match sep_index(s, sep) {
            Some(i) => 0 <= i < s.len() && s[i] == sep && (forall|j: int|
                0 <= j < i ==> s[j] != sep),
            None => forall|j: int| 0 <= j < s.len() ==> s[j] != sep,
        },
    decreases s.len(),
{
    if s.len() > 0 && s[0] != sep {
        let t = s.subrange(1, s.len() as int);
        lemma_sep_index(t, sep);
        match sep_index(t, sep) {
            Some(i) => {
                assert forall|j: int| 1 <= j < i + 1 implies s[j] != sep by {
                    assert(t[j - 1] != sep);
                }
            },
            None => {
                assert forall|j: int| 1 <= j < s.len() implies s[j] != sep by {
                    assert(t[j - 1] != sep);
                }
            },
        }
    }
}

/// Index of the first occurrence of `sep` in `s`, scanning left to right.
pub fn find_first(s: &str, sep: char) -> (r: Option<usize>)
    ensures
        match r {
            Some(i) => sep_index(s@, sep) == Some(i as int),
            None => sep_index(s@, sep) is None,
        },
{
    let n = s.unicode_len();
    let mut i: usize = 0;
    while i < n
        invariant
            i <= n,
            n == s@.len(),
            forall|j: int| 0 <= j < i ==> s@[j] != sep,
        decreases n - i,
    {
        if s.get_char(i) == sep {
            proof {
                lemma_sep_index(s@, sep);
            }
            return Some(i);
        }
        i = i + 1;
    }
    proof {
        lemma_sep_index(s@, sep);
    }
    None
}

/// Whether `c` is a decimal digit.
pub open spec fn is_digit(c: char) -> bool {
    '0' as u32 <= c as u32 && c as u32 <= '9' as u32
}

/// The value of the decimal digit `c`.
pub open spec fn digit_val(c: char) -> nat {
    (c as u32 - '0' as u32) as nat
}

/// Whether every character of `s` is a decimal digit.
pub open spec fn all_digits(s: Seq<char>) -> bool {
    forall|i: int| 0 <= i < s.len() ==> is_digit(s[i])
}

/// The value of `s` read as a decimal numeral, most significant digit
/// first.
pub open spec fn dec_val(s: Seq<char>) -> nat
    decreases s.len(),
{
    if s.len() == 0 {
        0
    } else {
        dec_val(s.drop_last()) * 10 + digit_val(s.last())
    }
}

/// The digits of an unsigned numeral: `s` without its leading plus sign,
/// if it carries one.
pub open spec fn digits_part(s: Seq<char>) -> Seq<char> {
    if s.len() > 0 && s[0] == '+' {
        s.subrange(1, s.len() as int)
    } else {
        s
    }
}

/// The unsigned value that `s` denotes: after an optional leading plus
/// sign, one or more decimal digits whose value fits in `usize`; anything
/// else denotes no value.
pub open spec fn parse_usize_spec(s: Seq<char>) -> Option<usize> {
    let d = digits_part(s);
    if d.len() > 0 && all_digits(d) && dec_val(d) <= usize::MAX {
        Some(dec_val(d) as usize)
    } else {
        None
    }
}

/// Appending one character multiplies the numeral's value by ten and adds
/// the new digit.
proof fn lemma_dec_val_push(s: Seq<char>, i: int)
    requires
        0 <= i < s.len(),
    ensures
        dec_val(s.subrange(0, i + 1)) == dec_val(s.subrange(0, i)) * 10 + digit_val(s[i]),
{
    let t = s.subrange(0, i + 1);
    assert(t.drop_last() =~= s.subrange(0, i));
    assert(t.last() == s[i]);
}

/// A numeral's value is no less than the value of any of its prefixes.
proof fn lemma_dec_val_prefix_le(s: Seq<char>, i: int)
    requires
        0 <= i <= s.len(),
    ensures
        dec_val(s.subrange(0, i)) <= dec_val(s),
    decreases s.len() - i,
{
    if i == s.len() {
        assert(s.subrange(0, i) =~= s);
    } else {
        lemma_dec_val_push(s, i);
        assert(dec_val(s.subrange(0, i)) * 10 >= dec_val(s.subrange(0, i)));
        lemma_dec_val_prefix_le(s, i + 1);
    }
}

/// Read `s` as an unsigned decimal numeral: an optional leading plus sign,
/// then one or more digits; `None` on any other shape, and on a value too
/// large for `usize`.
pub fn parse_usize(s: &str) -> (r: Option<usize>)
    ensures
        r == parse_usize_spec(s@),
{
    let n = s.unicode_len();
    let start: usize = if n > 0 && s.get_char(0) == '+' {
        1
    } else {
        0
    };
    let ghost d = digits_part(s@);
    proof {
        if start == 0 {
            assert(s@.subrange(0, n as int) =~= s@);
        }
    }
    if start >= n {
        return None;
    }
    let mut acc: usize = 0;
    let mut i: usize = start;
    while i < n
        invariant
            start <= i <= n,
            n == s@.len(),
            start < n,
            d == digits_part(s@),
            d == s@.subrange(start as int, n as int),
            all_digits(d.subrange(0, i - start)),
            acc == dec_val(d.subrange(0, i - start)),
        decreases n - i,
    {
        let c = s.get_char(i);
        let u = c as u32;
        proof {
            assert(d[i - start] == s@[i as int]);
        }
        if u < ('0' as u32) || ('9' as u32) < u {
            proof {
                assert(0 <= i - start && i - start < d.len());
                assert(!is_digit(d[i - start]));
                assert(!all_digits(d));
            }
            return None;
        }
        let dv = (u - '0' as u32) as usize;
        proof {
            lemma_dec_val_push(d, i - start);
        }
        let scaled = match acc.checked_mul(10) {
            Some(t) => t,
            None => {
                proof {
                    assert(dec_val(d.subrange(0, i - start + 1)) > usize::MAX);
                    lemma_dec_val_prefix_le(d, i - start + 1);
                    assert(dec_val(d) > usize::MAX);
                }
                return None;
            },
        };
        acc = match scaled.checked_add(dv) {
            Some(t) => t,
            None => {
                proof {
                    lemma_dec_val_prefix_le(d, i - start + 1);
                }
                return None;
            },
        };
        i = i + 1;
    }
    proof {
        assert(d.subrange(0, i - start) =~= d);
    }
    Some(acc)
}

/// A value that can be read from text, together with the statement of
/// which texts denote which values.
pub trait FromText: Sized {
    /// The value that `s` denotes, if any.
    spec fn parse_spec(s: Seq<char>) -> Option<Self>;

    /// Read a whole string as one value.
    fn parse_text(s: &str) -> (r: Option<Self>)
        ensures
            r == Self::parse_spec(s@),
    ;
}

impl FromText for usize {
    open spec fn parse_spec(s: Seq<char>) -> Option<usize> {
        parse_usize_spec(s)
    }

    fn parse_text(s: &str) -> (r: Option<usize>) {
        parse_usize(s)
    }
}

/// The pair denoted by `s`: split at the first occurrence of `sep`, both
/// halves read as values of `F`. A missing separator, or a half that
/// denotes no value, yields nothing.
pub open spec fn parse_pair_spec<F: FromText>(s: Seq<char>, sep: char) -> Option<(F, F)> {
    match sep_index(s, sep) {
        Some(i) => match (
            F::parse_spec(s.subrange(0, i)),
            F::parse_spec(s.subrange(i + 1, s.len() as int)),
        ) {
            (Some(l), Some(r)) => Some((l, r)),
            _ => None,
        },
        None => None,
    }
}

/// Split `s` at the first occurrence of `sep` and read both halves as
/// values of `F`; the pair is present only when the separator occurs and
/// both halves parse.
pub fn parse_pair<F: FromText>(s: &str, sep: char) -> (r: Option<(F, F)>)
    ensures
        r == parse_pair_spec::<F>(s@, sep),
{
    match find_first(s, sep) {
        Some(i) => {
            proof {
                lemma_sep_index(s@, sep);
            }
            let n = s.unicode_len();
            let left = s.substring_char(0, i);
            let right = s.substring_char(i + 1, n);
            match (F::parse_text(left), F::parse_text(right)) {
                (Some(l), Some(r)) => Some((l, r)),
                _ => None,
            }
        },
        None => None,
    }
}

/// The two halves of `s` around the first occurrence of `sep`: everything
/// before it, and everything after it. `None` when `sep` does not occur.
pub fn split_at_sep(s: &str, sep: char) -> (r: Option<(String, String)>)
    ensures
        match r {
            Some(halves) => sep_index(s@, sep) matches Some(i) && halves.0@ == s@.subrange(0, i)
                && halves.1@ == s@.subrange(i + 1, s@.len() as int),
            None => sep_index(s@, sep) is None,
        },
{
    match find_first(s, sep) {
        Some(i) => {
            proof {
                lemma_sep_index(s@, sep);
            }
            let n = s.unicode_len();
            let left = s.substring_char(0, i).to_owned();
            let right = s.substring_char(i + 1, n).to_owned();
            Some((left, right))
        },
        None => None,
    }
}

} // verus!
