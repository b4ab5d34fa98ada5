//! Numbers as text.

use vstd::prelude::*;

verus! {

/// The digit of a value below sixteen, in lower case.
pub open spec fn digit(d: int) -> char {
    if d < 10 {
        ('0' as int + d) as char
    } else {
        ('a' as int + d - 10) as char
    }
}

/// A number in decimal, without leading zeros.
pub open spec fn decimal(n: int) -> Seq<char>
    decreases n,
{
    if n < 10 {
        seq![digit(n)]
    } else {
        decimal(n / 10).push(digit(n % 10))
    }
}

/// The last `places` hexadecimal digits of a number, leading zeros included.
pub open spec fn hex_digits(n: int, places: nat) -> Seq<char>
    decreases places,
{
    if places == 0 {
        seq![]
    } else {
        hex_digits(n / 16, (places - 1) as nat).push(digit(n % 16))
    }
}

fn digit_char(d: u8) -> (r: char)
    requires
        d < 16,
    ensures
        r == digit(d as int),
{
    if d < 10 {
        (48 + d) as char
    } else {
        (87 + d) as char
    }
}

/// A number in decimal, without leading zeros.
pub fn decimal_text(n: usize) -> (r: String)
    ensures
        r@ == decimal(n as int),
    decreases n,
{
    if n < 10 {
        let mut r = String::new();
        r.push(digit_char(n as u8));
        assert(r@ =~= seq![digit(n as int)]);
        r
    } else {
        let mut r = decimal_text(n / 10);
        r.push(digit_char((n % 10) as u8));
        r
    }
}

/// A number as hexadecimal digits, `places` of them.
fn hex_text(n: u32, places: u32) -> (r: String)
    ensures
        r@ == hex_digits(n as int, places as nat),
    decreases places,
{
    if places == 0 {
        String::new()
    } else {
        let mut r = hex_text(n / 16, places - 1);
        r.push(digit_char((n % 16) as u8));
        r
    }
}

/// A number as eight hexadecimal digits.
pub fn hex8(n: u32) -> (r: String)
    ensures
        r@ == hex_digits(n as int, 8),
        r@.len() == 8,
{
    proof {
        reveal_with_fuel(hex_digits, 9);
    }
    hex_text(n, 8)
}

/// How many numbers that many hexadecimal digits can tell apart.
pub open spec fn hex_range(places: nat) -> int
    decreases places,
{
    if places == 0 {
        1
    } else {
        16 * hex_range((places - 1) as nat)
    }
}

/// Different numbers have different digits, if there are enough of them.
pub proof fn law_hex_digits_differ(n: int, m: int, places: nat)
    requires
        0 <= n < hex_range(places),
        0 <= m < hex_range(places),
        hex_digits(n, places) == hex_digits(m, places),
    ensures
        n == m,
    decreases places,
{
    if places > 0 {
        let before = (places - 1) as nat;
        assert(hex_digits(n, places).last() == digit(n % 16));
        assert(hex_digits(m, places).last() == digit(m % 16));
        assert(hex_digits(n, places).drop_last() =~= hex_digits(n / 16, before));
        assert(hex_digits(m, places).drop_last() =~= hex_digits(m / 16, before));
        law_hex_digits_differ(n / 16, m / 16, before);
    }
}

/// The number that decimal digits stand for.
pub open spec fn digits_value(digits: Seq<char>) -> int
    decreases digits.len(),
{
    if digits.len() == 0 {
        0
    } else {
        10 * digits_value(digits.drop_last()) + (digits.last() as int - '0' as int)
    }
}

/// The digits of a number stand for that number, there are only digits, and none of them is an
/// idle zero in front.
pub proof fn law_decimal_stands_for_its_number(n: int)
    requires
        n >= 0,
    ensures
        digits_value(decimal(n)) == n,
        decimal(n).len() > 0,
        n > 0 ==> decimal(n)[0] != '0',
        forall|i: int| 0 <= i < decimal(n).len() ==> '0' <= #[trigger] decimal(n)[i] <= '9',
    decreases n,
{
    let digits = decimal(n);
    if n < 10 {
        assert(digits.drop_last() =~= seq![]);
        assert(digits_value(digits.drop_last()) == 0);
    } else {
        law_decimal_stands_for_its_number(n / 10);
        assert(digits.drop_last() =~= decimal(n / 10));
        assert(n / 10 > 0);
        assert(digits[0] == decimal(n / 10)[0]);
    }
}

/// Hexadecimal digits are as many as asked for, all of them digits in lower case.
pub proof fn law_hex_digits_fill_their_places(n: int, places: nat)
    requires
        n >= 0,
    ensures
        hex_digits(n, places).len() == places,
        forall|i: int|
            0 <= i < places ==> ('0' <= #[trigger] hex_digits(n, places)[i] <= '9' || 'a'
                <= hex_digits(n, places)[i] <= 'f'),
    decreases places,
{
    if places > 0 {
        law_hex_digits_fill_their_places(n / 16, (places - 1) as nat);
    }
}

} // verus!
