//! Decimal rendering of integers, used for positional field names and for
//! stringified integer leaves.

use vstd::prelude::*;
use vstd::string::StringExecFns;

verus! {

/// The character of one decimal digit.
pub open spec fn spec_digit_char(d: int) -> char {
    if d == 0 {
        '0'
    } else if d == 1 {
        '1'
    } else if d == 2 {
        '2'
    } else if d == 3 {
        '3'
    } else if d == 4 {
        '4'
    } else if d == 5 {
        '5'
    } else if d == 6 {
        '6'
    } else if d == 7 {
        '7'
    } else if d == 8 {
        '8'
    } else {
        '9'
    }
}

/// The decimal digits of a natural number, most significant first, with no
/// leading zeros (a single `0` for zero).
pub open spec fn spec_nat_chars(n: nat) -> Seq<char>
    decreases n,
{
    if n < 10 {
        seq![spec_digit_char(n as int)]
    } else {
        spec_nat_chars(n / 10).push(spec_digit_char((n % 10) as int))
    }
}

/// The decimal rendering of an integer: a leading `-` for negatives.
pub open spec fn spec_int_chars(i: int) -> Seq<char> {
    if i < 0 {
        seq!['-'] + spec_nat_chars((-i) as nat)
    } else {
        spec_nat_chars(i as nat)
    }
}

fn digit_str(d: u8) -> (r: &'static str)
    requires
        d < 10,
    ensures
        r@ == seq![spec_digit_char(d as int)],
{
    proof {
        reveal_strlit("0");
        reveal_strlit("1");
        reveal_strlit("2");
        reveal_strlit("3");
        reveal_strlit("4");
        reveal_strlit("5");
        reveal_strlit("6");
        reveal_strlit("7");
        reveal_strlit("8");
        reveal_strlit("9");
    }
    let r = match d {
        0 => "0",
        1 => "1",
        2 => "2",
        3 => "3",
        4 => "4",
        5 => "5",
        6 => "6",
        7 => "7",
        8 => "8",
        _ => "9",
    };
    proof {
        assert(r@ =~= seq![spec_digit_char(d as int)]);
    }
    r
}

/// Renders a natural number in decimal.
pub fn u64_to_string(n: u64) -> (s: String)
    ensures
        s@ == spec_nat_chars(n as nat),
{
    // Digits are collected least significant first, then appended in
    // reverse.
    let mut digits: Vec<u8> = Vec::new();
    let mut m: u64 = n;
    loop
        invariant_except_break
            digits@.len() == 0 ==> m == n,
            digits@.len() > 0 ==> m > 0,
            digits@.len() > 0 ==> spec_nat_chars(n as nat) == spec_nat_chars(m as nat)
                + rev_digit_chars(digits@),
        invariant
            forall|k: int| 0 <= k < digits@.len() ==> digits@[k] < 10,
        ensures
            digits@.len() > 0,
            spec_nat_chars(n as nat) == rev_digit_chars(digits@),
        decreases m,
    {
        let d: u8 = (m % 10) as u8;
        let next: u64 = m / 10;
        proof {
            lemma_rev_digit_chars_push(digits@, d);
            let ghost old_chars = rev_digit_chars(digits@);
            let ghost new_chars = rev_digit_chars(digits@.push(d));
            if digits@.len() == 0 {
                assert(old_chars =~= Seq::<char>::empty());
            }
            if next == 0 {
                assert(m < 10) by (nonlinear_arith)
                    requires
                        next == m / 10,
                        next == 0,
                ;
                assert(spec_nat_chars(m as nat) == seq![spec_digit_char(d as int)]);
                if digits@.len() == 0 {
                    assert(new_chars =~= seq![spec_digit_char(d as int)]);
                    assert(spec_nat_chars(n as nat) == new_chars);
                } else {
                    assert(spec_nat_chars(n as nat) =~= seq![spec_digit_char(d as int)]
                        + old_chars);
                    assert(spec_nat_chars(n as nat) == new_chars);
                }
            } else {
                assert(m >= 10) by (nonlinear_arith)
                    requires
                        next == m / 10,
                        next > 0,
                ;
                assert(next < m) by (nonlinear_arith)
                    requires
                        next == m / 10,
                        m >= 10,
                ;
                assert(spec_nat_chars(m as nat) == spec_nat_chars(next as nat).push(
                    spec_digit_char(d as int),
                ));
                assert(spec_nat_chars(next as nat).push(spec_digit_char(d as int))
                    =~= spec_nat_chars(next as nat) + seq![spec_digit_char(d as int)]);
                if digits@.len() == 0 {
                    assert(spec_nat_chars(n as nat) =~= spec_nat_chars(next as nat) + new_chars);
                } else {
                    assert(spec_nat_chars(n as nat) =~= spec_nat_chars(next as nat) + new_chars);
                }
            }
        }
        digits.push(d);
        m = next;
        if m == 0 {
            break;
        }
    }
    let mut s = String::new();
    let mut k: usize = digits.len();
    while k > 0
        invariant
            k <= digits@.len(),
            forall|j: int| 0 <= j < digits@.len() ==> digits@[j] < 10,
            s@ == rev_digit_chars(digits@.skip(k as int)),
        decreases k,
    {
        k = k - 1;
        let ghost pre = s@;
        s.append(digit_str(digits[k]));
        proof {
            assert(digits@.skip(k as int) =~= seq![digits@[k as int]] + digits@.skip(k as int + 1));
            lemma_rev_digit_chars_cons(digits@[k as int], digits@.skip(k as int + 1));
        }
    }
    proof {
        assert(digits@.skip(0) =~= digits@);
    }
    s
}

/// The characters of a digit stack, read from the top down.
pub open spec fn rev_digit_chars(ds: Seq<u8>) -> Seq<char> {
    Seq::new(ds.len(), |i: int| spec_digit_char(ds[ds.len() - 1 - i] as int))
}

proof fn lemma_rev_digit_chars_push(ds: Seq<u8>, d: u8)
    ensures
        rev_digit_chars(ds.push(d)) == seq![spec_digit_char(d as int)] + rev_digit_chars(ds),
{
    assert(rev_digit_chars(ds.push(d)) =~= seq![spec_digit_char(d as int)] + rev_digit_chars(ds));
}

proof fn lemma_rev_digit_chars_cons(d: u8, ds: Seq<u8>)
    ensures
        rev_digit_chars(seq![d] + ds) == rev_digit_chars(ds).push(spec_digit_char(d as int)),
{
    assert(rev_digit_chars(seq![d] + ds) =~= rev_digit_chars(ds).push(spec_digit_char(d as int)));
}

/// Renders a signed integer in decimal, with a leading `-` when negative.
pub fn i64_to_string(i: i64) -> (s: String)
    ensures
        s@ == spec_int_chars(i as int),
{
    if i >= 0 {
        u64_to_string(i as u64)
    } else {
        let magnitude: u64 = if i == i64::MIN {
            9223372036854775808u64
        } else {
            (-i) as u64
        };
        let mut s = String::new();
        s.append("-");
        let rendered = u64_to_string(magnitude);
        s.append(rendered.as_str());
        proof {
            reveal_strlit("-");
            assert(s@ =~= seq!['-'] + spec_nat_chars(magnitude as nat));
        }
        s
    }
}

} // verus!
