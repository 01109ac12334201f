//! Randomness for store locations and secrets, behind a trusted wrapper.

use vstd::prelude::*;

verus! {

/// An ASCII letter or digit, the alphabet of generated store names and
/// secrets.
pub open spec fn is_alphanumeric_char(c: char) -> bool {
    ||| 48 <= c as int && c as int <= 57
    ||| 65 <= c as int && c as int <= 90
    ||| 97 <= c as int && c as int <= 122
}

/// Relies on rand's `SampleString` for `rand_distr::Alphanumeric`: it appends
/// exactly `len` characters drawn from the ASCII letters and digits, using a
/// cryptographically secure generator. Nothing is assumed about which
/// characters come out.
#[verifier::external_body]
pub fn random_alphanumeric(len: usize) -> (r: String)
    ensures
        r@.len() == len as nat,
        forall|i: int| 0 <= i < r@.len() ==> is_alphanumeric_char(#[trigger] r@[i]),
{
    rand::distr::SampleString::sample_string(&rand_distr::Alphanumeric, &mut rand::rng(), len)
}

} // verus!
