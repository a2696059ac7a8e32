//! Small string helpers: the one trusted operation the library needs beyond
//! what vstd specifies, equality against literal text, and decimal rendering.

use vstd::prelude::*;
use vstd::string::*;

verus! {

/// Relies on std's `String::push`: it appends exactly the given character to
/// the end of the string.
pub assume_specification[ String::push ](s: &mut String, c: char)
    ensures
        final(s)@ == old(s)@.push(c),
;

/// Whether a string's characters equal the given text's.
pub fn string_eq_text(a: &String, b: &str) -> (r: bool)
    ensures
        r == (a@ == b@),
{
    let bs = String::from_str(b);
    *a == bs
}

/// The decimal digit character of one digit value.
pub open spec fn digit_char(d: nat) -> char {
    ((48 + d) as u8) as char
}

/// The decimal rendering of a number, most significant digit first.
pub open spec fn spec_dec_digits(n: nat) -> Seq<char>
    decreases n,
{
    if n < 10 {
        seq![digit_char(n)]
    } else {
        spec_dec_digits(n / 10).push(digit_char(n % 10))
    }
}

/// Renders a number in decimal.
pub fn usize_to_string(v: usize) -> (s: String)
    ensures
        s@ == spec_dec_digits(v as nat),
{
    let mut digits: Vec<char> = Vec::new();
    let mut m: usize = v;
    if m == 0 {
        let mut s = String::new();
        s.push('0');
        proof {
            assert(s@ =~= spec_dec_digits(0));
        }
        return s;
    }
    while m > 0
        invariant
            v > 0,
            0 <= m <= v,
            m > 0 ==> spec_dec_digits(v as nat) =~= spec_dec_digits(m as nat)
                + digits@.reverse(),
            m == 0 ==> v > 0 && spec_dec_digits(v as nat) =~= digits@.reverse(),
        decreases m,
    {
        let ghost before = digits@;
        let d = m % 10;
        let c = (48 + d as u8) as char;
        digits.push(c);
        proof {
            assert(digits@.reverse() =~= seq![c] + before.reverse());
            if m >= 10 {
                assert(spec_dec_digits(m as nat) =~= spec_dec_digits((m / 10) as nat) + seq![c]);
                assert(spec_dec_digits((m / 10) as nat) + seq![c] + before.reverse()
                    =~= spec_dec_digits((m / 10) as nat) + digits@.reverse());
            } else {
                assert(spec_dec_digits(m as nat) =~= seq![c]);
            }
        }
        m = m / 10;
    }
    let mut s = String::new();
    let mut i: usize = digits.len();
    while i > 0
        invariant
            i <= digits@.len(),
            s@ =~= digits@.subrange(i as int, digits@.len() as int).reverse(),
        decreases i,
    {
        i -= 1;
        s.push(digits[i]);
        proof {
            assert(s@ =~= digits@.subrange(i as int, digits@.len() as int).reverse());
        }
    }
    proof {
        assert(digits@.subrange(0, digits@.len() as int) =~= digits@);
    }
    s
}

} // verus!
