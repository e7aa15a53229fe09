//! Small verified string utilities: decimal rendering of integers and the
//! symbol-name analysis (namespace separators, `$` prefixes) the evaluator
//! relies on.

use vstd::prelude::*;

verus! {

/// The character for one decimal digit.
pub open spec fn digit_char(d: int) -> char {
    if d == 0 {
        '0'
    } else if d == 1 {
        '1'
    } else if d == 2 {
        '2'
    } else if d == 3 {
        '3'
    } else if d == 4 {
        '4'
    } else if d == 5 {
        '5'
    } else if d == 6 {
        '6'
    } else if d == 7 {
        '7'
    } else if d == 8 {
        '8'
    } else {
        '9'
    }
}

/// Decimal text of a non-negative integer.
pub open spec fn dec_str(n: int) -> Seq<char>
    recommends
        n >= 0,
    decreases n,
{
    if n < 10 {
        seq![digit_char(n)]
    } else {
        dec_str(n / 10).push(digit_char(n % 10))
    }
}

/// Decimal text of an integer, with a leading minus sign when negative.
pub open spec fn int_str(n: int) -> Seq<char> {
    if n < 0 {
        seq!['-'] + dec_str(-n)
    } else {
        dec_str(n)
    }
}

/// The digit characters of a digit-value sequence, last digit first.
pub open spec fn rev_chars(s: Seq<u64>) -> Seq<char>
    decreases s.len(),
{
    if s.len() == 0 {
        Seq::empty()
    } else {
        seq![digit_char(s.last() as int)] + rev_chars(s.drop_last())
    }
}

fn digit_str(d: u64) -> (r: &'static str)
    requires
        d < 10,
    ensures
        r@ == seq![digit_char(d as int)],
{
    proof {
        reveal_strlit("0");
        reveal_strlit("1");
        reveal_strlit("2");
        reveal_strlit("3");
        reveal_strlit("4");
        reveal_strlit("5");
        reveal_strlit("6");
        reveal_strlit("7");
        reveal_strlit("8");
        reveal_strlit("9");
    }
    let r = match d {
        0 => "0",
        1 => "1",
        2 => "2",
        3 => "3",
        4 => "4",
        5 => "5",
        6 => "6",
        7 => "7",
        8 => "8",
        _ => "9",
    };
    proof {
        assert(r@ =~= seq![digit_char(d as int)]);
    }
    r
}

/// Render an unsigned integer in decimal.
pub fn u64_to_string(n: u64) -> (s: String)
    ensures
        s@ == dec_str(n as int),
{
    let mut digits: Vec<u64> = Vec::new();
    let mut cur: u64 = n;
    #[verifier::loop_isolation(false)]
    while cur >= 10
        invariant
            dec_str(n as int) == dec_str(cur as int) + rev_chars(digits@),
            forall|k: int| 0 <= k < digits@.len() ==> (#[trigger] digits@[k]) < 10,
        decreases cur,
    {
        let d: u64 = cur % 10;
        let next: u64 = cur / 10;
        proof {
            assert(dec_str(cur as int) == dec_str(next as int).push(digit_char(d as int)));
            assert(rev_chars(digits@.push(d)) == seq![digit_char(d as int)] + rev_chars(
                digits@.push(d).drop_last(),
            ));
            assert(digits@.push(d).drop_last() =~= digits@);
            assert(dec_str(next as int).push(digit_char(d as int)) + rev_chars(digits@)
                =~= dec_str(next as int) + (seq![digit_char(d as int)] + rev_chars(digits@)));
        }
        digits.push(d);
        cur = next;
    }
    proof {
        assert(dec_str(cur as int) == seq![digit_char(cur as int)]);
        assert(rev_chars(digits@.push(cur)) == seq![digit_char(cur as int)] + rev_chars(
            digits@.push(cur).drop_last(),
        ));
        assert(digits@.push(cur).drop_last() =~= digits@);
        assert(dec_str(n as int) =~= rev_chars(digits@.push(cur)));
    }
    digits.push(cur);
    let mut s = String::new();
    let mut i: usize = digits.len();
    proof {
        assert(digits@.subrange(0, i as int) =~= digits@);
    }
    #[verifier::loop_isolation(false)]
    while i > 0
        invariant
            i <= digits@.len(),
            forall|k: int| 0 <= k < digits@.len() ==> (#[trigger] digits@[k]) < 10,
            s@ + rev_chars(digits@.subrange(0, i as int)) == dec_str(n as int),
        decreases i,
    {
        i = i - 1;
        let d = digits[i];
        proof {
            let pre = digits@.subrange(0, i + 1);
            assert(pre.last() == d);
            assert(pre.drop_last() =~= digits@.subrange(0, i as int));
            assert(rev_chars(pre) == seq![digit_char(d as int)] + rev_chars(
                digits@.subrange(0, i as int),
            ));
            assert((s@ + seq![digit_char(d as int)]) + rev_chars(digits@.subrange(0, i as int))
                =~= s@ + rev_chars(pre));
        }
        s.append(digit_str(d));
    }
    proof {
        assert(rev_chars(digits@.subrange(0, 0)) =~= Seq::<char>::empty());
        assert(s@ =~= s@ + Seq::<char>::empty());
    }
    s
}

/// Render a signed integer in decimal.
pub fn i64_to_string(v: i64) -> (s: String)
    ensures
        s@ == int_str(v as int),
{
    if v >= 0 {
        u64_to_string(v as u64)
    } else {
        let m: u64 = if v == i64::MIN {
            9223372036854775808u64
        } else {
            (-v) as u64
        };
        proof {
            assert(m as int == -(v as int));
        }
        let mut s = String::new();
        proof {
            reveal_strlit("-");
        }
        s.append("-");
        let digits = u64_to_string(m);
        s.append(digits.as_str());
        proof {
            assert(s@ =~= seq!['-'] + dec_str(m as int));
        }
        s
    }
}

/// Render a u32 in decimal.
pub fn u32_to_string(v: u32) -> (s: String)
    ensures
        s@ == dec_str(v as int),
{
    u64_to_string(v as u64)
}

/// Render a usize in decimal.
pub fn usize_to_string(v: usize) -> (s: String)
    ensures
        s@ == dec_str(v as int),
{
    u64_to_string(v as u64)
}

/// The first `::` at or after position `i`.
pub open spec fn first_dc_from(s: Seq<char>, i: int) -> Option<int>
    recommends
        0 <= i,
    decreases s.len() - i,
{
    if i + 1 >= s.len() || i < 0 {
        None
    } else if s[i] == ':' && s[i + 1] == ':' {
        Some(i)
    } else {
        first_dc_from(s, i + 1)
    }
}

/// The first `::` in `s`, if any.
pub open spec fn first_dc(s: Seq<char>) -> Option<int> {
    first_dc_from(s, 0)
}

/// The namespace part of a `ns::name` key.
pub open spec fn dc_head(s: Seq<char>) -> Seq<char>
    recommends
        first_dc(s) is Some,
{
    s.subrange(0, first_dc(s)->0)
}

/// The name part of a `ns::name` key.
pub open spec fn dc_tail(s: Seq<char>) -> Seq<char>
    recommends
        first_dc(s) is Some,
{
    s.subrange(first_dc(s)->0 + 2, s.len() as int)
}

/// Split a key at its first `::` into namespace and name, if it has one.
pub fn split_double_colon(s: &str) -> (r: Option<(String, String)>)
    ensures
        match r {
            Some(p) => first_dc(s@) is Some && p.0@ == dc_head(s@) && p.1@ == dc_tail(s@),
            None => first_dc(s@) is None,
        },
{
    let n = s.unicode_len();
    if n < 2 {
        return None;
    }
    let mut i: usize = 0;
    #[verifier::loop_isolation(false)]
    while i < n - 1
        invariant
            n == s@.len(),
            2 <= n,
            i <= n,
            first_dc(s@) == first_dc_from(s@, i as int),
        decreases n - i,
    {
        if s.get_char(i) == ':' && s.get_char(i + 1) == ':' {
            let head = s.substring_char(0, i).to_owned();
            let tail = s.substring_char(i + 2, n).to_owned();
            return Some((head, tail));
        }
        i = i + 1;
    }
    None
}

/// Does the text start with the given character?
pub fn starts_with_char(s: &str, c: char) -> (r: bool)
    ensures
        r == (s@.len() > 0 && s@[0] == c),
{
    if s.unicode_len() == 0 {
        false
    } else {
        s.get_char(0) == c
    }
}


/// Character-for-character equality of two string slices.
pub fn str_eq(a: &str, b: &str) -> (r: bool)
    ensures
        r == (a@ == b@),
{
    let n = a.unicode_len();
    if n != b.unicode_len() {
        return false;
    }
    let mut i: usize = 0;
    #[verifier::loop_isolation(false)]
    while i < n
        invariant
            n == a@.len(),
            n == b@.len(),
            i <= n,
            forall|k: int| 0 <= k < i ==> a@[k] == b@[k],
        decreases n - i,
    {
        if a.get_char(i) != b.get_char(i) {
            return false;
        }
        i += 1;
    }
    proof {
        assert(a@ =~= b@);
    }
    true
}


/// Relies on std's `String::push`: it appends exactly the given character
/// to the end of the string.
pub assume_specification[ String::push ](s: &mut String, ch: char)
    ensures
        final(s)@ == old(s)@.push(ch),
;


/// A key without any colon has no `::` separator.
pub proof fn lemma_no_colon_no_dc(s: Seq<char>, i: int)
    requires
        0 <= i,
        forall|j: int| i <= j < s.len() ==> s[j] != ':',
    ensures
        first_dc_from(s, i) is None,
    decreases s.len() - i,
{
    if i + 1 < s.len() {
        lemma_no_colon_no_dc(s, i + 1);
    }
}

} // verus!
