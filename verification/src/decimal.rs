//! Decimal text for machine integers, together with its specification.
//!
//! The stack arbiter reports a mismatched value by quoting both numbers in
//! its fault text, so the crate needs a verified way to turn an integer into
//! its decimal digits.

use vstd::prelude::*;

verus! {

/// The character for one decimal digit.
pub open spec fn digit_char(d: nat) -> char {
    if d == 0 {
        '0'
    } else if d == 1 {
        '1'
    } else if d == 2 {
        '2'
    } else if d == 3 {
        '3'
    } else if d == 4 {
        '4'
    } else if d == 5 {
        '5'
    } else if d == 6 {
        '6'
    } else if d == 7 {
        '7'
    } else if d == 8 {
        '8'
    } else {
        '9'
    }
}

/// The decimal digits of a natural number, most significant first, with no
/// leading zero except for the number zero itself.
pub open spec fn decimal_nat(n: nat) -> Seq<char>
    decreases n,
{
    if n < 10 {
        seq![digit_char(n)]
    } else {
        decimal_nat(n / 10).push(digit_char(n % 10))
    }
}

/// The decimal text of an integer: a minus sign for a negative number, then
/// the digits of its magnitude.
pub open spec fn decimal(v: int) -> Seq<char> {
    if v < 0 {
        seq!['-'] + decimal_nat((-v) as nat)
    } else {
        decimal_nat(v as nat)
    }
}

/// The text for one digit.
fn digit_str(d: u32) -> (r: &'static str)
    requires
        d < 10,
    ensures
        r@ == seq![digit_char(d as nat)],
{
    let r: &'static str = if d == 0 {
        "0"
    } else if d == 1 {
        "1"
    } else if d == 2 {
        "2"
    } else if d == 3 {
        "3"
    } else if d == 4 {
        "4"
    } else if d == 5 {
        "5"
    } else if d == 6 {
        "6"
    } else if d == 7 {
        "7"
    } else if d == 8 {
        "8"
    } else {
        "9"
    };
    proof {
        reveal_strlit("0");
        reveal_strlit("1");
        reveal_strlit("2");
        reveal_strlit("3");
        reveal_strlit("4");
        reveal_strlit("5");
        reveal_strlit("6");
        reveal_strlit("7");
        reveal_strlit("8");
        reveal_strlit("9");
    }
    r
}

/// The digits collected least significant first, read back most significant
/// first.
spec fn high_first(low: Seq<u32>) -> Seq<char>
    decreases low.len(),
{
    if low.len() == 0 {
        Seq::empty()
    } else {
        seq![digit_char(low.last() as nat)] + high_first(low.drop_last())
    }
}

/// The decimal text of a `u32`.
pub fn u32_string(v: u32) -> (r: String)
    ensures
        r@ == decimal_nat(v as nat),
{
    let mut low: Vec<u32> = Vec::new();
    let mut x: u32 = v;
    proof {
        assert(decimal_nat(v as nat) =~= decimal_nat(v as nat) + high_first(low@));
    }
    loop
        invariant_except_break
            decimal_nat(v as nat) == decimal_nat(x as nat) + high_first(low@),
        invariant
            forall|k: int| 0 <= k < low@.len() ==> #[trigger] low@[k] < 10,
        ensures
            decimal_nat(v as nat) == high_first(low@),
        decreases x,
    {
        let ghost x0 = x;
        let ghost low0 = low@;
        let d = x % 10;
        low.push(d);
        x = x / 10;
        proof {
            assert(low@.last() == d);
            assert(low@.drop_last() =~= low0);
            assert(high_first(low@) == seq![digit_char(d as nat)] + high_first(low0));
            if x0 < 10 {
                assert(decimal_nat(x0 as nat) == seq![digit_char(x0 as nat)]);
            } else {
                assert(decimal_nat(x0 as nat) == decimal_nat((x0 as nat) / 10).push(
                    digit_char((x0 as nat) % 10),
                ));
                assert(decimal_nat((x0 as nat) / 10).push(digit_char(d as nat)) + high_first(low0)
                    =~= decimal_nat((x0 as nat) / 10) + (seq![digit_char(d as nat)] + high_first(
                    low0,
                )));
            }
        }
        if x == 0 {
            break ;
        }
    }
    let mut s = String::from_str("");
    proof {
        reveal_strlit("");
        assert(low@.subrange(0, low@.len() as int) =~= low@);
        assert(s@ + high_first(low@) =~= high_first(low@));
    }
    let mut i: usize = low.len();
    while i > 0
        invariant
            i <= low.len(),
            decimal_nat(v as nat) == high_first(low@),
            forall|k: int| 0 <= k < low@.len() ==> #[trigger] low@[k] < 10,
            s@ + high_first(low@.subrange(0, i as int)) == high_first(low@),
        decreases i,
    {
        i = i - 1;
        let ghost pre = s@;
        s.append(digit_str(low[i]));
        proof {
            let part = low@.subrange(0, i + 1);
            assert(part.last() == low@[i as int]);
            assert(part.drop_last() =~= low@.subrange(0, i as int));
            assert(high_first(part) == seq![digit_char(low@[i as int] as nat)] + high_first(
                low@.subrange(0, i as int),
            ));
            assert(s@ + high_first(low@.subrange(0, i as int)) =~= (pre + seq![
                digit_char(low@[i as int] as nat),
            ]) + high_first(low@.subrange(0, i as int)));
            assert((pre + seq![digit_char(low@[i as int] as nat)]) + high_first(
                low@.subrange(0, i as int),
            ) =~= pre + high_first(part));
        }
    }
    proof {
        assert(low@.subrange(0, 0) =~= Seq::<u32>::empty());
        assert(s@ + high_first(Seq::<u32>::empty()) =~= s@);
    }
    s
}

/// The decimal text of an `i32`.
pub fn i32_string(v: i32) -> (r: String)
    ensures
        r@ == decimal(v as int),
{
    if v >= 0 {
        u32_string(v as u32)
    } else {
        let mut s = String::from_str("-");
        let wide: i64 = v as i64;
        let mag: u32 = (-wide) as u32;
        proof {
            reveal_strlit("-");
            assert(mag as int == -(v as int));
        }
        let digits = u32_string(mag);
        s.append(digits.as_str());
        proof {
            assert(s@ =~= seq!['-'] + decimal_nat(mag as nat));
        }
        s
    }
}

} // verus!
