//! Verified text helpers: decimal rendering of integers and splitting a
//! string on a separator character.

use vstd::prelude::*;
use vstd::string::StrSliceExecFns;
use vstd::string::StringExecFns;

verus! {

/// The decimal digit character for a value below ten.
pub open spec fn digit_char(d: nat) -> char {
    if d == 0 {
        '0'
    } else if d == 1 {
        '1'
    } else if d == 2 {
        '2'
    } else if d == 3 {
        '3'
    } else if d == 4 {
        '4'
    } else if d == 5 {
        '5'
    } else if d == 6 {
        '6'
    } else if d == 7 {
        '7'
    } else if d == 8 {
        '8'
    } else {
        '9'
    }
}

/// The decimal representation of a natural number, most significant digit
/// first, with no leading zeros (a lone zero for 0).
pub open spec fn dec_digits(n: nat) -> Seq<char>
    decreases n,
{
    if n < 10 {
        seq![digit_char(n)]
    } else {
        dec_digits(n / 10) + seq![digit_char(n % 10)]
    }
}

/// The decimal representation of an integer: a minus sign before the
/// digits of the magnitude when the value is negative.
pub open spec fn dec_int(n: int) -> Seq<char> {
    if n >= 0 {
        dec_digits(n as nat)
    } else {
        seq!['-'] + dec_digits((-n) as nat)
    }
}

/// The index of the first occurrence of `sep` in `s`, or `s.len()` when
/// `sep` does not occur.
pub open spec fn find_sep(s: Seq<char>, sep: char) -> nat
    decreases s.len(),
{
    if s.len() == 0 {
        0
    } else if s[0] == sep {
        0
    } else {
        1 + find_sep(s.skip(1), sep)
    }
}

/// The parts of `s` between occurrences of `sep`, in order; consecutive
/// separators give empty parts, and the result is never empty.
pub open spec fn split_spec(s: Seq<char>, sep: char) -> Seq<Seq<char>>
    decreases s.len(),
{
    let i = find_sep(s, sep) as int;
    if i >= s.len() {
        seq![s]
    } else {
        seq![s.take(i)] + split_spec(s.skip(i + 1), sep)
    }
}

proof fn lemma_find_sep_at(s: Seq<char>, sep: char, k: nat)
    requires
        k <= s.len(),
        forall|j: int| 0 <= j < k ==> s[j] != sep,
        k < s.len() ==> s[k as int] == sep,
    ensures
        find_sep(s, sep) == k,
    decreases s.len(),
{
    if s.len() == 0 {
    } else if k == 0 {
    } else {
        assert(s[0] != sep);
        assert forall|j: int| 0 <= j < k - 1 implies s.skip(1)[j] != sep by {
            assert(s.skip(1)[j] == s[j + 1]);
        }
        assert(k - 1 < s.skip(1).len() ==> s.skip(1)[k - 1] == s[k as int]);
        lemma_find_sep_at(s.skip(1), sep, (k - 1) as nat);
    }
}

/// Unfolds one separator step of `split_spec`: when the first separator at
/// or after `start` is at `i`, the part `s[start..i]` comes off the front.
proof fn lemma_split_step(s: Seq<char>, sep: char, start: int, i: int)
    requires
        0 <= start <= i < s.len(),
        s[i] == sep,
        forall|j: int| start <= j < i ==> s[j] != sep,
    ensures
        split_spec(s.skip(start), sep) == seq![s.subrange(start, i)] + split_spec(s.skip(i + 1), sep),
{
    let t = s.skip(start);
    assert forall|j: int| 0 <= j < i - start implies t[j] != sep by {
        assert(t[j] == s[start + j]);
    }
    assert(t[i - start] == s[i]);
    lemma_find_sep_at(t, sep, (i - start) as nat);
    assert(t.take(i - start) =~= s.subrange(start, i));
    assert(t.skip(i - start + 1) =~= s.skip(i + 1));
}

/// When no separator stands at or after `start`, one final part remains.
proof fn lemma_split_last(s: Seq<char>, sep: char, start: int)
    requires
        0 <= start <= s.len(),
        forall|j: int| start <= j < s.len() ==> s[j] != sep,
    ensures
        split_spec(s.skip(start), sep) == seq![s.subrange(start, s.len() as int)],
{
    let t = s.skip(start);
    assert forall|j: int| 0 <= j < t.len() implies t[j] != sep by {
        assert(t[j] == s[start + j]);
    }
    lemma_find_sep_at(t, sep, t.len());
    assert(t =~= s.subrange(start, s.len() as int));
}

/// Splits `s` on the separator character, keeping empty parts, as the
/// sequence `split_spec(s@, sep)` describes.
pub fn split(s: &str, sep: char) -> (r: Vec<String>)
    ensures
        r.deep_view() == split_spec(s@, sep),
{
    let len = s.unicode_len();
    let mut parts: Vec<String> = Vec::new();
    let mut start: usize = 0;
    let mut i: usize = 0;
    proof {
        assert(s@.skip(0) =~= s@);
        assert(parts.deep_view() + split_spec(s@, sep) =~= split_spec(s@, sep));
    }
    while i < len
        invariant
            start <= i <= len,
            len == s@.len(),
            forall|j: int| start <= j < i ==> s@[j] != sep,
            split_spec(s@, sep) == parts.deep_view() + split_spec(s@.skip(start as int), sep),
        decreases len - i,
    {
        if s.get_char(i) == sep {
            let piece = String::from_str(s.substring_char(start, i));
            proof {
                lemma_split_step(s@, sep, start as int, i as int);
                assert(parts.deep_view().push(piece@) =~= parts.deep_view() + seq![s@.subrange(
                    start as int,
                    i as int,
                )]);
                assert((parts.deep_view() + seq![s@.subrange(start as int, i as int)])
                    + split_spec(s@.skip(i as int + 1), sep) =~= parts.deep_view() + (seq![
                    s@.subrange(start as int, i as int),
                ] + split_spec(s@.skip(i as int + 1), sep)));
            }
            let ghost old_parts = parts.deep_view();
            parts.push(piece);
            proof {
                assert(parts.deep_view() =~= old_parts.push(piece@));
            }
            start = i + 1;
        }
        i = i + 1;
    }
    let piece = String::from_str(s.substring_char(start, len));
    proof {
        lemma_split_last(s@, sep, start as int);
        assert(parts.deep_view().push(piece@) =~= parts.deep_view() + seq![s@.subrange(
            start as int,
            len as int,
        )]);
    }
    let ghost old_parts = parts.deep_view();
    parts.push(piece);
    proof {
        assert(parts.deep_view() =~= old_parts.push(piece@));
    }
    parts
}

fn digit_str(d: u32) -> (r: &'static str)
    requires
        d < 10,
    ensures
        r@ == seq![digit_char(d as nat)],
{
    let r: &'static str = if d == 0 {
        "0"
    } else if d == 1 {
        "1"
    } else if d == 2 {
        "2"
    } else if d == 3 {
        "3"
    } else if d == 4 {
        "4"
    } else if d == 5 {
        "5"
    } else if d == 6 {
        "6"
    } else if d == 7 {
        "7"
    } else if d == 8 {
        "8"
    } else {
        "9"
    };
    proof {
        reveal_strlit("0");
        reveal_strlit("1");
        reveal_strlit("2");
        reveal_strlit("3");
        reveal_strlit("4");
        reveal_strlit("5");
        reveal_strlit("6");
        reveal_strlit("7");
        reveal_strlit("8");
        reveal_strlit("9");
        assert(r@ =~= seq![digit_char(d as nat)]);
    }
    r
}

/// Renders an unsigned number in decimal.
pub fn u32_to_string(n: u32) -> (r: String)
    ensures
        r@ == dec_digits(n as nat),
    decreases n,
{
    if n < 10 {
        String::from_str(digit_str(n))
    } else {
        let mut s = u32_to_string(n / 10);
        s.append(digit_str(n % 10));
        s
    }
}

/// Renders a signed number in decimal, with a leading minus sign when it
/// is negative.
pub fn int_to_string(n: i32) -> (r: String)
    ensures
        r@ == dec_int(n as int),
{
    if n >= 0 {
        u32_to_string(n as u32)
    } else {
        let m: u32 = (-(n as i64)) as u32;
        let mut s = String::from_str("-");
        let digits = u32_to_string(m);
        s.append(digits.as_str());
        proof {
            reveal_strlit("-");
            assert(s@ =~= dec_int(n as int));
        }
        s
    }
}

} // verus!
