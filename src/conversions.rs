use vstd::prelude::*;

verus! {

/// `s` with every `,` replaced by `.`.
pub open spec fn dots_for_commas(s: Seq<char>) -> Seq<char> {
    s.map_values(|c: char| if c == ',' { '.' } else { c })
}

/// Relies on `str::replace` with a `char` pattern: every occurrence of `,` is replaced
/// by the text `"."`, the other characters are kept in order.
#[verifier::external_body]
fn replace_commas(s: &str) -> (r: String)
    ensures
        r@ == dots_for_commas(s@),
{
    s.replace(',', ".")
}

/// Turns a number written with a decimal comma into one written with a decimal point.
pub fn convert_localized_string(s: &str) -> (r: String)
    ensures
        r@ == dots_for_commas(s@),
{
    replace_commas(s)
}

/// `c` degrees Celsius in Fahrenheit, `c * 9 / 5 + 32` with the fraction dropped toward zero.
pub open spec fn fahrenheit(c: int) -> int {
    if c >= 0 {
        c * 9 / 5 + 32
    } else {
        -((-c) * 9 / 5) + 32
    }
}

/// Converts a temperature from Celsius to Fahrenheit, dropping the fraction toward zero.
pub fn celsius_to_fahrenheit(c: i64) -> (r: i64)
    requires
        -(i64::MAX / 9) <= c <= i64::MAX / 9,
    ensures
        r == fahrenheit(c as int),
{
    if c >= 0 {
        let m: u64 = c as u64 * 9 / 5;
        m as i64 + 32
    } else {
        let m: u64 = (-c) as u64 * 9 / 5;
        32 - m as i64
    }
}

} // verus!
