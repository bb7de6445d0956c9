//! Number formatting for listing output.

use vstd::prelude::*;
use crate::text::{decimal, digit_char, push_char, push_decimal};

verus! {

/// Decimal representation of `n` with a comma between each group of three
/// digits, counted from the right.
pub open spec fn grouped_decimal(n: nat) -> Seq<char>
    decreases n,
{
    if n < 1000 {
        decimal(n)
    } else {
        grouped_decimal(n / 1000) + seq![
            ',',
            digit_char((n % 1000) / 100),
            digit_char((n % 100) / 10),
            digit_char(n % 10),
        ]
    }
}

/// Appends `n` with thousands separators.
fn push_grouped(s: &mut String, n: u64)
    ensures
        final(s)@ == old(s)@ + grouped_decimal(n as nat),
    decreases n,
{
    if n < 1000 {
        push_decimal(s, n);
        return;
    }
    push_grouped(s, n / 1000);
    let r = n % 1000;
    push_char(s, ',');
    push_char(s, ((r / 100) as u8 + 48) as char);
    push_char(s, (((r % 100) / 10) as u8 + 48) as char);
    push_char(s, ((r % 10) as u8 + 48) as char);
    assert((n as nat % 100) == r % 100) by (nonlinear_arith)
        requires
            r == n % 1000,
    ;
    assert(old(s)@ + grouped_decimal(n as nat) =~= old(s)@ + grouped_decimal((n / 1000) as nat) + seq![
        ',',
        digit_char((r / 100) as nat),
        digit_char(((r % 100) / 10) as nat),
        digit_char((r % 10) as nat),
    ]);
}

/// `n` in decimal with a comma between groups of three digits, such as
/// "1,234,567".
pub fn format_number_with_separators(n: u64) -> (r: String)
    ensures
        r@ == grouped_decimal(n as nat),
{
    let mut s = String::new();
    push_grouped(&mut s, n);
    assert(Seq::<char>::empty() + grouped_decimal(n as nat) =~= grouped_decimal(n as nat));
    s
}

} // verus!
