//! The timestamp: seconds since the Unix epoch at signing time, rendered as
//! a decimal string. Fails only when the clock reads a time before the
//! epoch.

use vstd::prelude::*;
use crate::encode::{ascii_chars_of, bytes_to_string, lemma_ascii_bytes_chars};

verus! {

#[verifier::external_type_specification]
#[verifier::external_body]
pub struct ExSystemTimeError(std::time::SystemTimeError);

/// Relies on `std::time::SystemTime`: the whole seconds between the Unix
/// epoch and the clock's reading of now, or the clock's own error when that
/// reading lies before the epoch. The value depends on the clock, so nothing
/// is promised of it.
#[verifier::external_body]
fn epoch_seconds_now() -> (r: Result<u64, std::time::SystemTimeError>) {
    std::time::SystemTime::now().duration_since(std::time::SystemTime::UNIX_EPOCH).map(
        |d| d.as_secs(),
    )
}

/// The decimal digits of `n`, most significant first, as ASCII bytes.
pub open spec fn dec_bytes(n: nat) -> Seq<u8>
    decreases n,
{
    if n < 10 {
        seq![(0x30 + n) as u8]
    } else {
        dec_bytes(n / 10) + seq![(0x30 + (n % 10)) as u8]
    }
}

/// The decimal rendering of `n`.
pub open spec fn dec_str(n: nat) -> Seq<char> {
    ascii_chars_of(dec_bytes(n))
}

proof fn lemma_dec_bytes_digits(n: nat)
    ensures
        forall|i: int| 0 <= i < dec_bytes(n).len() ==> 0x30 <= #[trigger] dec_bytes(n)[i] <= 0x39,
    decreases n,
{
    if n >= 10 {
        lemma_dec_bytes_digits(n / 10);
        assert forall|i: int|
            0 <= i < dec_bytes(n).len() implies 0x30 <= #[trigger] dec_bytes(n)[i] <= 0x39 by {
            if i < dec_bytes(n / 10).len() {
                assert(dec_bytes(n)[i] == dec_bytes(n / 10)[i]);
            }
        }
    }
}

fn u64_dec_digits(n: u64) -> (r: Vec<u8>)
    ensures
        r@ == dec_bytes(n as nat),
    decreases n,
{
    if n < 10 {
        let mut v: Vec<u8> = Vec::new();
        v.push(0x30 + (n as u8));
        proof {
            assert(v@ =~= dec_bytes(n as nat));
        }
        v
    } else {
        let mut v = u64_dec_digits(n / 10);
        v.push(0x30 + ((n % 10) as u8));
        proof {
            assert(v@ =~= dec_bytes(n as nat));
        }
        v
    }
}

/// Render a number in decimal.
pub fn u64_to_decimal(n: u64) -> (r: String)
    ensures
        r@ == dec_str(n as nat),
{
    let digits = u64_dec_digits(n);
    proof {
        lemma_dec_bytes_digits(n as nat);
        assert forall|i: int| 0 <= i < dec_bytes(n as nat).len() implies #[trigger] dec_bytes(
            n as nat,
        )[i] < 0x80 by {
            assert(0x30 <= dec_bytes(n as nat)[i] <= 0x39);
        }
        lemma_ascii_bytes_chars(dec_bytes(n as nat));
    }
    bytes_to_string(digits)
}

/// A string that is the decimal rendering of some number.
pub open spec fn is_decimal_string(s: Seq<char>) -> bool {
    exists|n: nat| s == #[trigger] dec_str(n)
}

/// Read the clock and render the epoch seconds in decimal. An `Err` carries
/// the clock's own error, reported when now is before the epoch.
pub fn get_timestamp() -> (r: Result<String, std::time::SystemTimeError>)
    ensures
        r matches Ok(s) ==> is_decimal_string(s@),
{
    match epoch_seconds_now() {
        Ok(n) => {
            let s = u64_to_decimal(n);
            proof {
                assert(s@ == dec_str(n as nat));
            }
            Ok(s)
        },
        Err(e) => Err(e),
    }
}

} // verus!
