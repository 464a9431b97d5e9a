use vstd::prelude::*;
use vstd::string::StringExecFns;

verus! {

// Decimal rendering of integers, for `explain` output. The spec
// functions define the usual decimal form — no sign for zero, a `-`
// prefix for negatives, no leading zeros — and the executable side
// relies on std's `Display`, which documents exactly that form.

pub open spec fn spec_digit_char(d: int) -> char {
    if d == 0 {
        '0'
    } else if d == 1 {
        '1'
    } else if d == 2 {
        '2'
    } else if d == 3 {
        '3'
    } else if d == 4 {
        '4'
    } else if d == 5 {
        '5'
    } else if d == 6 {
        '6'
    } else if d == 7 {
        '7'
    } else if d == 8 {
        '8'
    } else {
        '9'
    }
}

/// The decimal digits of a non-negative integer.
pub open spec fn spec_dec_nat(x: nat) -> Seq<char>
    decreases x,
{
    if x < 10 {
        seq![spec_digit_char(x as int)]
    } else {
        spec_dec_nat(x / 10) + seq![spec_digit_char((x % 10) as int)]
    }
}

pub open spec fn spec_dec_usize(x: usize) -> Seq<char> {
    spec_dec_nat(x as nat)
}

pub open spec fn spec_dec_i64(x: i64) -> Seq<char> {
    if x < 0 {
        seq!['-'] + spec_dec_nat((-(x as int)) as nat)
    } else {
        spec_dec_nat(x as nat)
    }
}

/// Relies on std's decimal `Display` for `usize`: the digits of the
/// value, most significant first, without leading zeros.
#[verifier::external_body]
pub fn fmt_usize(x: usize) -> (r: String)
    ensures
        r@ == spec_dec_usize(x),
{
    format!("{}", x)
}

/// Relies on std's decimal `Display` for `i64`: a `-` prefix for
/// negative values, then the digits of the magnitude.
#[verifier::external_body]
pub fn fmt_i64(x: i64) -> (r: String)
    ensures
        r@ == spec_dec_i64(x),
{
    format!("{}", x)
}

/// `n` spaces.
pub open spec fn spec_spaces(n: int) -> Seq<char>
    decreases n,
{
    if n <= 0 {
        Seq::empty()
    } else {
        spec_spaces(n - 1) + seq![' ']
    }
}

pub fn spaces(n: usize) -> (r: String)
    ensures
        r@ == spec_spaces(n as int),
{
    let mut s = String::new();
    let mut i: usize = 0;
    while i < n
        invariant
            i <= n,
            s@ == spec_spaces(i as int),
        decreases n - i,
    {
        s.append(" ");
        i = i + 1;
        proof {
            reveal_strlit(" ");
            assert(s@ =~= spec_spaces(i as int));
        }
    }
    s
}

} // verus!
