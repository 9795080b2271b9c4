use vstd::prelude::*;

verus! {

/// An ASCII decimal digit.
pub open spec fn is_digit_char(c: char) -> bool {
    '0' <= c && c <= '9'
}

/// The digit character for a value below ten.
pub open spec fn digit_char(d: int) -> char
    recommends
        0 <= d < 10,
{
    if d == 0 {
        '0'
    } else if d == 1 {
        '1'
    } else if d == 2 {
        '2'
    } else if d == 3 {
        '3'
    } else if d == 4 {
        '4'
    } else if d == 5 {
        '5'
    } else if d == 6 {
        '6'
    } else if d == 7 {
        '7'
    } else if d == 8 {
        '8'
    } else {
        '9'
    }
}

/// The decimal rendering of a non-negative integer, most significant
/// digit first, with no leading zeros (a single zero for zero itself).
pub open spec fn dec_str(n: int) -> Seq<char>
    recommends
        n >= 0,
    decreases n,
{
    if n <= 9 {
        seq![digit_char(n)]
    } else {
        dec_str(n / 10).push(digit_char(n % 10))
    }
}

/// Every character of a decimal rendering is a digit.
pub proof fn lemma_dec_str_digits(n: int)
    requires
        n >= 0,
    ensures
        forall|i: int| 0 <= i < dec_str(n).len() ==> is_digit_char(#[trigger] dec_str(n)[i]),
    decreases n,
{
    if n > 9 {
        lemma_dec_str_digits(n / 10);
        let prefix = dec_str(n / 10);
        let whole = dec_str(n);
        assert(whole == prefix.push(digit_char(n % 10)));
        assert forall|i: int| 0 <= i < whole.len() implies is_digit_char(#[trigger] whole[i]) by {
            if i < prefix.len() {
                assert(whole[i] == prefix[i]);
            } else {
                assert(whole[i] == digit_char(n % 10));
            }
        }
    }
}

/// Appends the character for a single decimal digit.
fn push_digit(s: &mut String, d: u16)
    requires
        d < 10,
    ensures
        final(s)@ == old(s)@.push(digit_char(d as int)),
{
    if d == 0 {
        proof {
            reveal_strlit("0");
        }
        s.append("0");
        assert(final(s)@ =~= old(s)@.push('0'));
    } else if d == 1 {
        proof {
            reveal_strlit("1");
        }
        s.append("1");
        assert(final(s)@ =~= old(s)@.push('1'));
    } else if d == 2 {
        proof {
            reveal_strlit("2");
        }
        s.append("2");
        assert(final(s)@ =~= old(s)@.push('2'));
    } else if d == 3 {
        proof {
            reveal_strlit("3");
        }
        s.append("3");
        assert(final(s)@ =~= old(s)@.push('3'));
    } else if d == 4 {
        proof {
            reveal_strlit("4");
        }
        s.append("4");
        assert(final(s)@ =~= old(s)@.push('4'));
    } else if d == 5 {
        proof {
            reveal_strlit("5");
        }
        s.append("5");
        assert(final(s)@ =~= old(s)@.push('5'));
    } else if d == 6 {
        proof {
            reveal_strlit("6");
        }
        s.append("6");
        assert(final(s)@ =~= old(s)@.push('6'));
    } else if d == 7 {
        proof {
            reveal_strlit("7");
        }
        s.append("7");
        assert(final(s)@ =~= old(s)@.push('7'));
    } else if d == 8 {
        proof {
            reveal_strlit("8");
        }
        s.append("8");
        assert(final(s)@ =~= old(s)@.push('8'));
    } else {
        proof {
            reveal_strlit("9");
        }
        s.append("9");
        assert(final(s)@ =~= old(s)@.push('9'));
    }
}

/// Renders an integer as its decimal string.
pub fn u16_decimal(n: u16) -> (s: String)
    ensures
        s@ == dec_str(n as int),
    decreases n,
{
    if n <= 9 {
        let mut s = String::new();
        push_digit(&mut s, n);
        assert(s@ =~= dec_str(n as int));
        s
    } else {
        let mut s = u16_decimal(n / 10);
        push_digit(&mut s, n % 10);
        assert(s@ =~= dec_str(n as int));
        s
    }
}

} // verus!
