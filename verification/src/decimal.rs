//! Decimal rendering of integers, used for the `--depth=<value>` flag.

use vstd::prelude::*;
use vstd::string::StringExecFns;

verus! {

/// The character for a single decimal digit value.
pub open spec fn digit_char(d: int) -> char {
    if d == 0 {
        '0'
    } else if d == 1 {
        '1'
    } else if d == 2 {
        '2'
    } else if d == 3 {
        '3'
    } else if d == 4 {
        '4'
    } else if d == 5 {
        '5'
    } else if d == 6 {
        '6'
    } else if d == 7 {
        '7'
    } else if d == 8 {
        '8'
    } else {
        '9'
    }
}

/// Decimal digits of `n`, most significant first; empty for zero.
pub open spec fn dec_digits(n: nat) -> Seq<char>
    decreases n,
{
    if n == 0 {
        Seq::empty()
    } else {
        dec_digits(n / 10).push(digit_char((n % 10) as int))
    }
}

/// The usual decimal rendering of a natural number (`0` renders as "0").
pub open spec fn dec_rep(n: nat) -> Seq<char> {
    if n == 0 {
        seq!['0']
    } else {
        dec_digits(n)
    }
}

/// Decimal rendering of a signed value, with a leading `-` for negatives.
pub open spec fn int_dec_rep(v: int) -> Seq<char> {
    if v < 0 {
        seq!['-'] + dec_rep((-v) as nat)
    } else {
        dec_rep(v as nat)
    }
}

/// The characters of the digit values in `ds`, read back to front.
spec fn rev_digit_chars(ds: Seq<u64>) -> Seq<char>
    decreases ds.len(),
{
    if ds.len() == 0 {
        Seq::empty()
    } else {
        seq![digit_char(ds.last() as int)] + rev_digit_chars(ds.drop_last())
    }
}

proof fn lemma_rev_digit_chars_first(ds: Seq<u64>)
    requires
        ds.len() > 0,
    ensures
        rev_digit_chars(ds) == rev_digit_chars(ds.drop_first()) + seq![
            digit_char(ds.first() as int),
        ],
    decreases ds.len(),
{
    if ds.len() == 1 {
        assert(rev_digit_chars(ds.drop_last()) == Seq::<char>::empty());
        assert(rev_digit_chars(ds.drop_first()) == Seq::<char>::empty());
        assert(rev_digit_chars(ds) =~= rev_digit_chars(ds.drop_first()) + seq![
            digit_char(ds.first() as int),
        ]);
    } else {
        lemma_rev_digit_chars_first(ds.drop_last());
        assert(ds.drop_last().drop_first() =~= ds.drop_first().drop_last());
        assert(ds.drop_last().first() == ds.first());
        assert(ds.drop_first().last() == ds.last());
        assert(rev_digit_chars(ds) =~= rev_digit_chars(ds.drop_first()) + seq![
            digit_char(ds.first() as int),
        ]);
    }
}

/// One-character string for a decimal digit value.
fn digit_str(d: u64) -> (s: &'static str)
    requires
        d < 10,
    ensures
        s@ == seq![digit_char(d as int)],
{
    proof {
        reveal_strlit("0");
        reveal_strlit("1");
        reveal_strlit("2");
        reveal_strlit("3");
        reveal_strlit("4");
        reveal_strlit("5");
        reveal_strlit("6");
        reveal_strlit("7");
        reveal_strlit("8");
        reveal_strlit("9");
    }
    let s = if d == 0 {
        "0"
    } else if d == 1 {
        "1"
    } else if d == 2 {
        "2"
    } else if d == 3 {
        "3"
    } else if d == 4 {
        "4"
    } else if d == 5 {
        "5"
    } else if d == 6 {
        "6"
    } else if d == 7 {
        "7"
    } else if d == 8 {
        "8"
    } else {
        "9"
    };
    proof {
        assert(s@ =~= seq![digit_char(d as int)]);
    }
    s
}

/// Renders an unsigned value in decimal.
pub fn u64_to_string(n: u64) -> (s: String)
    ensures
        s@ == dec_rep(n as nat),
{
    if n == 0 {
        let s = String::from_str("0");
        proof {
            reveal_strlit("0");
            assert(s@ =~= dec_rep(0));
        }
        return s;
    }
    let mut digits: Vec<u64> = Vec::new();
    let mut cur: u64 = n;
    while cur > 0
        invariant
            forall|k: int| 0 <= k < digits@.len() ==> digits@[k] < 10,
            dec_digits(n as nat) =~= dec_digits(cur as nat) + rev_digit_chars(digits@),
        decreases cur,
    {
        let d: u64 = cur % 10;
        let next: u64 = cur / 10;
        proof {
            assert(rev_digit_chars(digits@.push(d)) =~= seq![digit_char(d as int)]
                + rev_digit_chars(digits@)) by {
                assert(digits@.push(d).last() == d);
                assert(digits@.push(d).drop_last() =~= digits@);
            }
            assert(dec_digits(cur as nat) == dec_digits((cur as nat) / 10).push(
                digit_char(((cur as nat) % 10) as int),
            ));
            assert(dec_digits(n as nat) =~= dec_digits(next as nat) + rev_digit_chars(
                digits@.push(d),
            ));
        }
        digits.push(d);
        cur = next;
    }
    assert(dec_digits(n as nat) =~= rev_digit_chars(digits@));
    let mut s = String::new();
    let mut i: usize = digits.len();
    while i > 0
        invariant
            i <= digits.len(),
            forall|k: int| 0 <= k < digits@.len() ==> digits@[k] < 10,
            s@ =~= rev_digit_chars(digits@.skip(i as int)),
        decreases i,
    {
        let d: u64 = digits[i - 1];
        let piece = digit_str(d);
        proof {
            let tail = digits@.skip(i as int - 1);
            lemma_rev_digit_chars_first(tail);
            assert(tail.drop_first() =~= digits@.skip(i as int));
            assert(tail.first() == digits@[i as int - 1]);
            assert(rev_digit_chars(digits@.skip(i as int - 1)) =~= s@ + piece@);
        }
        s.append(piece);
        i = i - 1;
    }
    proof {
        assert(digits@.skip(0) =~= digits@);
        assert(s@ =~= dec_rep(n as nat));
    }
    s
}

/// Renders a signed value in decimal, as the depth option is written on the
/// command line.
pub fn i32_to_string(v: i32) -> (s: String)
    ensures
        s@ == int_dec_rep(v as int),
{
    if v >= 0 {
        u64_to_string(v as u64)
    } else {
        let wide: i64 = v as i64;
        let mag: u64 = (-wide) as u64;
        let mut s = String::from_str("-");
        let rest = u64_to_string(mag);
        s.append(rest.as_str());
        proof {
            reveal_strlit("-");
            assert(s@ =~= int_dec_rep(v as int));
        }
        s
    }
}

} // verus!
