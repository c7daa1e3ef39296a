use vstd::prelude::*;

verus! {

/// The numeral of one decimal digit.
pub open spec fn digit_text(d: nat) -> Seq<char> {
    if d == 0 {
        "0"@
    } else if d == 1 {
        "1"@
    } else if d == 2 {
        "2"@
    } else if d == 3 {
        "3"@
    } else if d == 4 {
        "4"@
    } else if d == 5 {
        "5"@
    } else if d == 6 {
        "6"@
    } else if d == 7 {
        "7"@
    } else if d == 8 {
        "8"@
    } else {
        "9"@
    }
}

/// The decimal numeral of `n`, without leading zeros.
pub open spec fn decimal(n: nat) -> Seq<char>
    decreases n,
{
    if n < 10 {
        digit_text(n)
    } else {
        decimal(n / 10) + digit_text(n % 10)
    }
}

/// A number of hundredths of a point as a decimal number: no fraction if it
/// is whole, and no trailing zero in the fraction.
pub open spec fn points_text(h: int) -> Seq<char> {
    let a: nat = if h < 0 { (-h) as nat } else { h as nat };
    let frac = a % 100;
    (if h < 0 { "-"@ } else { ""@ }) + decimal(a / 100) + if frac == 0 {
        ""@
    } else if frac % 10 == 0 {
        "."@ + digit_text(frac / 10)
    } else {
        "."@ + digit_text(frac / 10) + digit_text(frac % 10)
    }
}

fn digit_str(d: u128) -> (r: &'static str)
    requires
        d < 10,
    ensures
        r@ == digit_text(d as nat),
{
    if d == 0 {
        "0"
    } else if d == 1 {
        "1"
    } else if d == 2 {
        "2"
    } else if d == 3 {
        "3"
    } else if d == 4 {
        "4"
    } else if d == 5 {
        "5"
    } else if d == 6 {
        "6"
    } else if d == 7 {
        "7"
    } else if d == 8 {
        "8"
    } else {
        "9"
    }
}

/// Appends the decimal numeral of `n`.
pub fn append_decimal(s: &mut String, n: u128)
    ensures
        final(s)@ == old(s)@ + decimal(n as nat),
    decreases n,
{
    if n >= 10 {
        append_decimal(s, n / 10);
    }
    s.append(digit_str(n % 10));
    proof {
        assert(final(s)@ =~= old(s)@ + decimal(n as nat));
    }
}

/// Appends a number of hundredths of a point as a decimal number.
pub fn append_points(s: &mut String, h: i128)
    ensures
        final(s)@ == old(s)@ + points_text(h as int),
{
    let ghost s0 = s@;
    let a: u128 = if h < 0 { (-(h + 1)) as u128 + 1 } else { h as u128 };
    let ghost an: nat = if h < 0 { (-h) as nat } else { h as nat };
    assert(a as nat == an);
    let sign = if h < 0 { "-" } else { "" };
    s.append(sign);
    append_decimal(s, a / 100);
    let ghost s1 = s@;
    assert(s1 == s0 + (if h < 0 { "-"@ } else { ""@ }) + decimal(an / 100));
    let frac = a % 100;
    assert(frac as nat == an % 100);
    if frac != 0 {
        s.append(".");
        s.append(digit_str(frac / 10));
        if frac % 10 != 0 {
            s.append(digit_str(frac % 10));
            assert(s@ =~= s1 + ("."@ + digit_text((an % 100) / 10) + digit_text((an % 100) % 10)));
        } else {
            assert(s@ =~= s1 + ("."@ + digit_text((an % 100) / 10)));
        }
    } else {
        proof {
            reveal_strlit("");
        }
        assert(s@ =~= s1 + ""@);
    }
    proof {
        assert(final(s)@ =~= old(s)@ + points_text(h as int));
    }
}

} // verus!
