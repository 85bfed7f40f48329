//! Decimal rendering of page numbers and comma-joined page lists.

use vstd::prelude::*;
use vstd::string::StringExecFns;

verus! {

/// The character of one decimal digit.
pub open spec fn digit_char(d: int) -> char
    recommends
        0 <= d <= 9,
{
    if d == 0 {
        '0'
    } else if d == 1 {
        '1'
    } else if d == 2 {
        '2'
    } else if d == 3 {
        '3'
    } else if d == 4 {
        '4'
    } else if d == 5 {
        '5'
    } else if d == 6 {
        '6'
    } else if d == 7 {
        '7'
    } else if d == 8 {
        '8'
    } else {
        '9'
    }
}

/// The decimal rendering of a non-negative integer, without leading
/// zeroes (a single zero for zero itself).
pub open spec fn dec_str(n: int) -> Seq<char>
    recommends
        n >= 0,
    decreases n,
{
    if n < 10 {
        seq![digit_char(n)]
    } else {
        dec_str(n / 10).push(digit_char(n % 10))
    }
}

/// A comma-joined list of decimal numbers, in sequence order.
pub open spec fn dec_list_str(ns: Seq<usize>) -> Seq<char>
    decreases ns.len(),
{
    if ns.len() == 0 {
        Seq::empty()
    } else if ns.len() == 1 {
        dec_str(ns[0] as int)
    } else {
        dec_list_str(ns.drop_last()) + seq![','] + dec_str(ns.last() as int)
    }
}

/// The one-character string of a decimal digit.
fn digit_str(d: usize) -> (r: &'static str)
    requires
        d <= 9,
    ensures
        r@ == seq![digit_char(d as int)],
{
    if d == 0 {
        proof { reveal_strlit("0"); assert("0"@ =~= seq![digit_char(0int)]); }
        "0"
    } else if d == 1 {
        proof { reveal_strlit("1"); assert("1"@ =~= seq![digit_char(1int)]); }
        "1"
    } else if d == 2 {
        proof { reveal_strlit("2"); assert("2"@ =~= seq![digit_char(2int)]); }
        "2"
    } else if d == 3 {
        proof { reveal_strlit("3"); assert("3"@ =~= seq![digit_char(3int)]); }
        "3"
    } else if d == 4 {
        proof { reveal_strlit("4"); assert("4"@ =~= seq![digit_char(4int)]); }
        "4"
    } else if d == 5 {
        proof { reveal_strlit("5"); assert("5"@ =~= seq![digit_char(5int)]); }
        "5"
    } else if d == 6 {
        proof { reveal_strlit("6"); assert("6"@ =~= seq![digit_char(6int)]); }
        "6"
    } else if d == 7 {
        proof { reveal_strlit("7"); assert("7"@ =~= seq![digit_char(7int)]); }
        "7"
    } else if d == 8 {
        proof { reveal_strlit("8"); assert("8"@ =~= seq![digit_char(8int)]); }
        "8"
    } else {
        proof { reveal_strlit("9"); assert("9"@ =~= seq![digit_char(9int)]); }
        "9"
    }
}

/// Appends the decimal rendering of `n` to the string.
pub fn push_decimal(s: &mut String, n: usize)
    ensures
        final(s)@ == old(s)@ + dec_str(n as int),
    decreases n,
{
    if n >= 10 {
        push_decimal(s, n / 10);
        let d = digit_str(n % 10);
        s.append(d);
        proof {
            assert(old(s)@ + dec_str(n as int / 10) + seq![digit_char(n as int % 10)] =~= old(s)@
                + dec_str(n as int));
        }
    } else {
        let d = digit_str(n);
        s.append(d);
        proof {
            assert(old(s)@ + seq![digit_char(n as int)] =~= old(s)@ + dec_str(n as int));
        }
    }
}

/// Renders a list of numbers as comma-joined decimal text.
pub fn format_number_list(ns: &Vec<usize>) -> (r: String)
    ensures
        r@ == dec_list_str(ns@),
{
    let mut s = String::new();
    let mut i: usize = 0;
    while i < ns.len()
        invariant
            0 <= i <= ns@.len(),
            s@ == dec_list_str(ns@.take(i as int)),
        decreases ns@.len() - i,
    {
        let ghost prefix = s@;
        if i > 0 {
            let comma = ",";
            proof { reveal_strlit(","); }
            s.append(comma);
        }
        push_decimal(&mut s, ns[i]);
        proof {
            assert(ns@.take(i + 1 as int).drop_last() =~= ns@.take(i as int));
            if i == 0 {
                assert(prefix =~= Seq::<char>::empty());
                assert(prefix + dec_str(ns@[0] as int) =~= dec_list_str(ns@.take(1int)));
            } else {
                reveal_strlit(",");
                assert(prefix + ","@ + dec_str(ns@[i as int] as int) =~= dec_list_str(
                    ns@.take(i + 1 as int),
                ));
            }
        }
        i = i + 1;
    }
    proof {
        assert(ns@.take(ns@.len() as int) =~= ns@);
    }
    s
}

} // verus!
