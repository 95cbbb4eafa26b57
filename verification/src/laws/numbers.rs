//! Laws of decimal and hexadecimal.

use vstd::prelude::*;

use crate::numbers::{
    decimal, digits_value, is_digit, is_digits, parse_hex_pair, parse_u64, to_decimal, to_hex_digit,
    unsigned_part,
};

verus! {

/// A number is written digit by digit: the digits of its tens, then that of its ones, and nothing
/// before the first digit.
pub proof fn law_decimal_digits(n: u64, r: String, tens: String)
    requires
        call_ensures(to_decimal, (n,), r),
        call_ensures(to_decimal, (n / 10,), tens),
    ensures
        n < 10 ==> r@.len() == 1,
        n >= 10 ==> r@.drop_last() == tens@,
        r@.len() > 0,
        r@.last() as int == '0' as int + n % 10,
        n > 0 ==> r@[0] != '0',
{
    lemma_no_leading_zero(n as nat);
    if n >= 10 {
        assert(r@.drop_last() =~= tens@);
    }
}

proof fn lemma_no_leading_zero(n: nat)
    ensures
        decimal(n).len() > 0,
        n > 0 ==> decimal(n)[0] != '0',
    decreases n,
{
    if n >= 10 {
        lemma_no_leading_zero(n / 10);
    }
}

/// A number is read digit by digit: one digit more is ten times the number and the digit, as long
/// as that is in range; no other character may follow, and nothing that cannot be read becomes
/// readable by a digit more. The smallest texts are a digit, with a plus sign or without.
pub proof fn law_parse_digits(s: &str, d: char, longer: &str, r: Option<u64>, rl: Option<u64>)
    requires
        longer@ == s@.push(d),
        call_ensures(parse_u64, (s,), r),
        call_ensures(parse_u64, (longer,), rl),
    ensures
        s@.len() == 0 ==> r is None,
        s@ == seq!['+'] ==> r is None,
        !('0' <= d <= '9') ==> rl is None,
        '0' <= d <= '9' && (s@.len() == 0 || s@ == seq!['+']) ==> rl == Some(
            (d as int - '0' as int) as u64,
        ),
        '0' <= d <= '9' && s@.len() > 0 && s@ != seq!['+'] ==> match r {
            Some(n) => if n * 10 + (d as int - '0' as int) <= u64::MAX {
                rl == Some((n * 10 + (d as int - '0' as int)) as u64)
            } else {
                rl is None
            },
            None => rl is None,
        },
{
    let digits = unsigned_part(s@);
    let more = unsigned_part(longer@);
    reveal_with_fuel(digits_value, 2);
    if s@ == seq!['+'] {
        assert(digits =~= Seq::<char>::empty());
        assert(more =~= seq![d]);
        assert(more.drop_last() =~= Seq::<char>::empty());
    } else if s@.len() == 0 {
        if d == '+' {
            assert(more =~= Seq::<char>::empty());
        } else {
            assert(more =~= seq![d]);
            assert(more.drop_last() =~= Seq::<char>::empty());
        }
    } else {
        assert(more =~= digits.push(d)) by {
            assert(longer@[0] == s@[0]);
        }
        assert(more.drop_last() =~= digits);
        assert(more.last() == d);
        if s@[0] == '+' && digits.len() == 0 {
            assert(s@ =~= seq!['+']);
        }
        assert(digits.len() > 0);
        if is_digits(digits) && is_digit(d) {
            assert forall|i: int| 0 <= i < more.len() implies is_digit(#[trigger] more[i]) by {
                if i < digits.len() {
                    assert(more[i] == digits[i]);
                }
            }
            assert(is_digits(more));
        }
        if is_digits(more) {
            assert forall|i: int| 0 <= i < digits.len() implies is_digit(#[trigger] digits[i]) by {
                assert(digits[i] == more[i]);
            }
            assert(is_digits(digits));
            assert(is_digit(more[more.len() - 1]));
        }
    }
    if is_digits(more) {
        assert(is_digit(more[more.len() - 1]));
    }
}

/// Two hexadecimal digits, in either case, are sixteen times the first and the second; a plus sign
/// may stand for the first, and nothing else is a pair.
pub proof fn law_hex_pairs(x: u8, y: u8, hi: char, lo: char, a: u8, b: u8, r: Option<u8>)
    requires
        x < 16,
        y < 16,
        call_ensures(to_hex_digit, (x,), hi),
        call_ensures(to_hex_digit, (y,), lo),
        call_ensures(parse_hex_pair, (a, b), r),
    ensures
        hi as int == if x < 10 {
            '0' as int + x
        } else {
            'A' as int + x - 10
        },
        ({
            let first = a as int == hi as int || x >= 10 && a as int == hi as int + 32;
            let second = b as int == lo as int || y >= 10 && b as int == lo as int + 32;
            &&& first && second ==> r == Some((16 * x + y) as u8)
            &&& a as int == '+' as int && second ==> r == Some(y)
        }),
        !(0x30 <= b <= 0x39 || 0x41 <= b <= 0x46 || 0x61 <= b <= 0x66) ==> r is None,
        !(a == 0x2b || 0x30 <= a <= 0x39 || 0x41 <= a <= 0x46 || 0x61 <= a <= 0x66) ==> r is None,
{
}

} // verus!
