//! Time-based one-time passwords (RFC 6238) over the HMAC-SHA1 HOTP of `otpshka`.
use vstd::prelude::*;

verus! {

/// Length of one time step, in seconds.
pub const TIME_STEP: u64 = 30;

/// Number of decimal digits in a code.
pub const CODE_DIGITS: usize = 6;

/// The truncated HOTP value (HMAC-SHA1, dynamic truncation, modulo 10^digits) of
/// `counter` under the key `seed`.
pub uninterp spec fn hotp_value(seed: Seq<u8>, counter: u64, digits: u8) -> u32;

/// Relies on `otpshka::HOTP::generate_num` with `Algorithm::SHA1`: the HOTP value of
/// `counter` keyed by `seed`, reduced modulo 10^digits (which overflows past 9 digits).
/// `HOTP::new` asserts (in debug builds) that the seed is not empty.
#[verifier::external_body]
fn hotp_number(seed: &[u8], counter: u64, digits: u8) -> (r: u32)
    requires
        seed@.len() > 0,
        1 <= digits <= 9,
    ensures
        r == hotp_value(seed@, counter, digits),
        digits == 6 ==> r < 1_000_000,
{
    otpshka::HOTP::new(otpshka::Algorithm::SHA1, seed).generate_num(counter, digits)
}

/// The last `width` decimal digits of `n`, most significant first, as ASCII.
pub open spec fn padded_digits(n: nat, width: nat) -> Seq<u8>
    decreases width,
{
    if width == 0 {
        Seq::empty()
    } else {
        padded_digits(n / 10, (width - 1) as nat).push((48 + n % 10) as u8)
    }
}

/// The code shown for `seed` at Unix time `time`.
pub open spec fn totp_spec(seed: Seq<u8>, time: u64) -> Seq<u8> {
    padded_digits(hotp_value(seed, time / TIME_STEP, CODE_DIGITS as u8) as nat, CODE_DIGITS as nat)
}

/// The last `width` decimal digits of `n`, zero-padded, as ASCII bytes.
pub fn padded(n: u32, width: usize) -> (r: Vec<u8>)
    ensures
        r@ == padded_digits(n as nat, width as nat),
    decreases width,
{
    if width == 0 {
        Vec::new()
    } else {
        let mut v = padded(n / 10, width - 1);
        v.push(48 + (n % 10) as u8);
        v
    }
}

/// Formats a truncated HOTP value as the six-digit code shown to the user.
pub fn code_digits(n: u32) -> (r: Vec<u8>)
    ensures
        r@ == padded_digits(n as nat, CODE_DIGITS as nat),
        r@.len() == CODE_DIGITS,
{
    let r = padded(n, CODE_DIGITS);
    proof {
        lemma_padded_len(n as nat, CODE_DIGITS as nat);
    }
    r
}

/// A padded rendering has exactly the requested width.
pub proof fn lemma_padded_len(n: nat, width: nat)
    ensures
        padded_digits(n, width).len() == width,
    decreases width,
{
    if width > 0 {
        lemma_padded_len(n / 10, (width - 1) as nat);
    }
}

/// Every byte of a padded rendering is an ASCII decimal digit.
pub proof fn lemma_padded_ascii(n: nat, width: nat)
    ensures
        forall|i: int| 0 <= i < padded_digits(n, width).len() ==> 48 <= #[trigger] padded_digits(n, width)[i] <= 57,
    decreases width,
{
    if width > 0 {
        lemma_padded_ascii(n / 10, (width - 1) as nat);
        let prev = padded_digits(n / 10, (width - 1) as nat);
        assert(padded_digits(n, width) == prev.push((48 + n % 10) as u8));
        assert forall|i: int| 0 <= i < padded_digits(n, width).len() implies 48 <= #[trigger] padded_digits(n, width)[i] <= 57 by {
            if i < prev.len() {
                assert(padded_digits(n, width)[i] == prev[i]);
            }
        }
    }
}

/// The time-step counter of a Unix timestamp.
pub fn time_counter(time: u64) -> (r: u64)
    ensures
        r == time / TIME_STEP,
{
    time / TIME_STEP
}

/// The six-digit TOTP code for `seed` at Unix time `time`, with 30-second steps.
pub fn totp_code(seed: &[u8], time: u64) -> (r: Vec<u8>)
    requires
        seed@.len() > 0,
    ensures
        r@ == totp_spec(seed@, time),
        r@.len() == CODE_DIGITS,
        forall|i: int| 0 <= i < r@.len() ==> 48 <= #[trigger] r@[i] <= 57,
{
    let n = hotp_number(seed, time_counter(time), CODE_DIGITS as u8);
    proof {
        lemma_padded_ascii(n as nat, CODE_DIGITS as nat);
    }
    code_digits(n)
}

} // verus!
