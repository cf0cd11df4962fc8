//! Request-signature verification.
//!
//! An inbound webhook is authentic when the signature header equals
//! `"v0=" + hex(HMAC-SHA256(secret, "v0:<timestamp>:<body>"))` and the
//! timestamp header is numeric and within 300 seconds of the current time.
//! A missing or stale header is a malformed request; only a present, fresh
//! but mismatched signature counts as unauthorized.

use vstd::prelude::*;
use hmac::{Hmac, KeyInit, Mac};
use sha2::Sha256;
use crate::text::str_eq;

verus! {

/// The decimal digit character for `d`.
pub open spec fn digit_char(d: int) -> char {
    if d == 0 {
        '0'
    } else if d == 1 {
        '1'
    } else if d == 2 {
        '2'
    } else if d == 3 {
        '3'
    } else if d == 4 {
        '4'
    } else if d == 5 {
        '5'
    } else if d == 6 {
        '6'
    } else if d == 7 {
        '7'
    } else if d == 8 {
        '8'
    } else {
        '9'
    }
}

/// The canonical decimal rendering of `n`, without leading zeros.
pub open spec fn dec_str_spec(n: nat) -> Seq<char>
    decreases n,
{
    if n < 10 {
        seq![digit_char(n as int)]
    } else {
        dec_str_spec(n / 10).push(digit_char((n % 10) as int))
    }
}

/// True iff `c` is an ASCII decimal digit.
pub open spec fn is_digit_char(c: char) -> bool {
    48 <= c as int <= 57
}

/// The value of a digit character.
pub open spec fn digit_val(c: char) -> int {
    c as int - 48
}

/// True iff every character of `s` is a decimal digit.
pub open spec fn all_digits(s: Seq<char>) -> bool {
    forall|i: int| 0 <= i < s.len() ==> is_digit_char(s[i])
}

/// The number a digit string denotes.
pub open spec fn dec_val(s: Seq<char>) -> int
    decreases s.len(),
{
    if s.len() == 0 {
        0
    } else {
        dec_val(s.drop_last()) * 10 + digit_val(s.last())
    }
}

/// True iff `s` is a non-empty digit string whose value fits in a `u64`.
pub open spec fn is_u64_decimal(s: Seq<char>) -> bool {
    s.len() >= 1 && all_digits(s) && dec_val(s) <= u64::MAX
}

proof fn lemma_dec_val_nonneg(s: Seq<char>)
    requires
        all_digits(s),
    ensures
        dec_val(s) >= 0,
    decreases s.len(),
{
    if s.len() > 0 {
        assert(all_digits(s.drop_last()));
        lemma_dec_val_nonneg(s.drop_last());
    }
}

proof fn lemma_dec_val_prefix(s: Seq<char>, j: int)
    requires
        all_digits(s),
        0 <= j <= s.len(),
    ensures
        dec_val(s.subrange(0, j)) <= dec_val(s),
    decreases s.len() - j,
{
    if j == s.len() {
        assert(s.subrange(0, j) =~= s);
    } else {
        let p = s.subrange(0, j);
        let q = s.subrange(0, j + 1);
        assert(q.drop_last() =~= p);
        assert(q.last() == s[j]);
        assert(all_digits(p));
        lemma_dec_val_nonneg(p);
        assert(dec_val(q) == dec_val(p) * 10 + digit_val(s[j]));
        assert(dec_val(p) * 10 >= dec_val(p));
        lemma_dec_val_prefix(s, j + 1);
    }
}

/// Parses a non-empty ASCII-decimal string into a `u64`; rejects anything
/// else, including values that do not fit.
pub fn parse_u64(s: &str) -> (r: Option<u64>)
    ensures
        match r {
            Some(n) => is_u64_decimal(s@) && n == dec_val(s@),
            None => !is_u64_decimal(s@),
        },
{
    let n = s.unicode_len();
    if n == 0 {
        return None;
    }
    let mut acc: u64 = 0;
    let mut i: usize = 0;
    proof {
        assert(s@.subrange(0, 0) =~= Seq::<char>::empty());
    }
    while i < n
        invariant
            n == s@.len(),
            i <= n,
            all_digits(s@.subrange(0, i as int)),
            acc == dec_val(s@.subrange(0, i as int)),
        decreases n - i,
    {
        let c = s.get_char(i);
        let code = c as u32;
        if code < 48 || code > 57 {
            proof {
                assert(!is_digit_char(s@[i as int]));
            }
            return None;
        }
        let dig = (code - 48) as u64;
        if acc > (u64::MAX - dig) / 10 {
            proof {
                let p = s@.subrange(0, i as int + 1);
                assert(p.drop_last() =~= s@.subrange(0, i as int));
                assert(p.last() == s@[i as int]);
                assert(all_digits(p));
                assert(dec_val(p) == acc * 10 + dig);
                assert(dec_val(p) > u64::MAX) by {
                    assert(acc * 10 + dig > u64::MAX) by (nonlinear_arith)
                        requires
                            acc > (u64::MAX - dig) / 10,
                            dig <= 9,
                            acc <= u64::MAX,
                    ;
                }
                if all_digits(s@) {
                    lemma_dec_val_prefix(s@, i as int + 1);
                }
            }
            return None;
        }
        proof {
            let p = s@.subrange(0, i as int + 1);
            assert(p.drop_last() =~= s@.subrange(0, i as int));
            assert(p.last() == s@[i as int]);
            assert(acc * 10 + dig <= u64::MAX) by (nonlinear_arith)
                requires
                    acc <= (u64::MAX - dig) / 10,
                    dig <= 9,
            ;
        }
        acc = acc * 10 + dig;
        i += 1;
    }
    proof {
        assert(s@.subrange(0, n as int) =~= s@);
    }
    Some(acc)
}

proof fn lemma_dec_str_spec_val(n: nat)
    ensures
        dec_str_spec(n).len() >= 1,
        all_digits(dec_str_spec(n)),
        dec_val(dec_str_spec(n)) == n,
    decreases n,
{
    if n < 10 {
        let s = dec_str_spec(n);
        assert(s =~= seq![digit_char(n as int)]);
        assert(s.drop_last() =~= Seq::<char>::empty());
        assert(dec_val(Seq::<char>::empty()) == 0);
        assert(s.last() == digit_char(n as int));
        assert(dec_val(s) == dec_val(s.drop_last()) * 10 + digit_val(s.last()));
        assert(digit_val(digit_char(n as int)) == n);
    } else {
        lemma_dec_str_spec_val(n / 10);
        let p = dec_str_spec(n / 10);
        let s = p.push(digit_char((n % 10) as int));
        assert(s.drop_last() =~= p);
        assert(s.last() == digit_char((n % 10) as int));
        assert(digit_val(digit_char((n % 10) as int)) == n % 10);
        assert(dec_val(s) == dec_val(p) * 10 + n % 10);
        assert((n / 10) * 10 + n % 10 == n) by (nonlinear_arith);
        assert(all_digits(s)) by {
            assert(forall|i: int| 0 <= i < p.len() ==> s[i] == p[i]);
        }
    }
}

/// Rendering a number and parsing the digits back is the identity: the
/// canonical decimal form of any `u64` is a valid timestamp string that
/// denotes the same number.
pub proof fn lemma_decimal_round_trip(n: u64)
    ensures
        is_u64_decimal(dec_str_spec(n as nat)),
        dec_val(dec_str_spec(n as nat)) == n,
{
    lemma_dec_str_spec_val(n as nat);
}

/// The exec rendering of one decimal digit.
fn digit_char_of(d: u64) -> (c: char)
    requires
        d < 10,
    ensures
        c == digit_char(d as int),
{
    if d == 0 {
        '0'
    } else if d == 1 {
        '1'
    } else if d == 2 {
        '2'
    } else if d == 3 {
        '3'
    } else if d == 4 {
        '4'
    } else if d == 5 {
        '5'
    } else if d == 6 {
        '6'
    } else if d == 7 {
        '7'
    } else if d == 8 {
        '8'
    } else {
        '9'
    }
}

/// The canonical decimal rendering of `n`.
pub fn u64_to_string(n: u64) -> (r: String)
    ensures
        r@ == dec_str_spec(n as nat),
    decreases n,
{
    if n < 10 {
        crate::text::chars_to_string(&vec![digit_char_of(n)])
    } else {
        let s = u64_to_string(n / 10);
        let d = digit_char_of(n % 10);
        let tail = crate::text::chars_to_string(&vec![d]);
        let out = s.concat(tail.as_str());
        proof {
            assert(out@ =~= dec_str_spec((n / 10) as nat).push(digit_char((n % 10) as int)));
        }
        out
    }
}

/// The lowercase hexadecimal digit character for `d`.
pub open spec fn hex_digit_char(d: int) -> char {
    if d < 10 {
        digit_char(d)
    } else if d == 10 {
        'a'
    } else if d == 11 {
        'b'
    } else if d == 12 {
        'c'
    } else if d == 13 {
        'd'
    } else if d == 14 {
        'e'
    } else {
        'f'
    }
}

/// Lowercase hexadecimal rendering of a byte string: two digits per byte.
pub open spec fn hex_of(b: Seq<u8>) -> Seq<char>
    decreases b.len(),
{
    if b.len() == 0 {
        Seq::<char>::empty()
    } else {
        seq![hex_digit_char(b[0] as int / 16), hex_digit_char(b[0] as int % 16)] + hex_of(
            b.skip(1),
        )
    }
}

/// Relies on `hex::encode`: the lowercase hexadecimal rendering of the
/// bytes, two digits per byte.
#[verifier::external_body]
fn hex_encode(b: &Vec<u8>) -> (r: String)
    ensures
        r@ == hex_of(b@),
{
    hex::encode(b)
}

/// The HMAC-SHA256 digest of the UTF-8 bytes of `msg`, keyed by the UTF-8
/// bytes of `key`; a function of the two strings alone.
pub uninterp spec fn hmac_sha256_of(key: Seq<char>, msg: Seq<char>) -> Seq<u8>;

/// Relies on `Hmac::<Sha256>` of the hmac crate (`new_from_slice`, `update`,
/// `finalize`): the HMAC-SHA256 digest of `msg` keyed by `key`, which
/// depends on the two strings alone and is 32 bytes long.  HMAC accepts
/// keys of any length, so construction cannot fail.
#[verifier::external_body]
fn hmac_sha256(key: &str, msg: &str) -> (r: Vec<u8>)
    ensures
        r@ == hmac_sha256_of(key@, msg@),
        r@.len() == 32,
{
    let mut mac = <Hmac<Sha256> as KeyInit>::new_from_slice(key.as_bytes())
        .expect("HMAC accepts keys of any length");
    mac.update(msg.as_bytes());
    mac.finalize().into_bytes().to_vec()
}

/// The string the signature is computed over: `"v0:<timestamp>:<body>"`.
pub open spec fn sig_base_spec(ts: u64, body: Seq<char>) -> Seq<char> {
    "v0:"@ + dec_str_spec(ts as nat) + ":"@ + body
}

/// The signature the platform is expected to send:
/// `"v0=" + hex(HMAC-SHA256(secret, base))`.
pub open spec fn expected_signature_spec(secret: Seq<char>, ts: u64, body: Seq<char>) -> Seq<
    char,
> {
    "v0="@ + hex_of(hmac_sha256_of(secret, sig_base_spec(ts, body)))
}

/// True iff the request timestamp is within 300 seconds of `now`, in either
/// direction.
pub open spec fn fresh_timestamp(now: u64, ts: u64) -> bool {
    (if now >= ts {
        now - ts
    } else {
        ts - now
    }) <= 300
}

/// True iff the timestamp header is present, numeric and fresh.
pub open spec fn timestamp_ok(timestamp_header: Option<&str>, now: u64) -> bool {
    match timestamp_header {
        Some(t) => is_u64_decimal(t@) && fresh_timestamp(now, dec_val(t@) as u64),
        None => false,
    }
}

/// True iff the signature header is present and equals the signature
/// recomputed from the secret, the timestamp header and the body.
pub open spec fn signature_matches(
    timestamp_header: Option<&str>,
    signature_header: Option<&str>,
    secret: Seq<char>,
    body: Seq<char>,
) -> bool {
    match (timestamp_header, signature_header) {
        (Some(t), Some(s)) => s@ == expected_signature_spec(secret, dec_val(t@) as u64, body),
        _ => false,
    }
}

/// Why a request was turned away.
#[derive(Debug, Clone, Copy, PartialEq, Eq, Structural)]
pub enum SignatureError {
    /// Missing or non-numeric timestamp, stale timestamp, or missing
    /// signature header.
    BadRequest,
    /// Headers present and fresh, but the signature does not match.
    Unauthorized,
}

/// Validates that an inbound request is authentic and fresh; pure.
///
/// Accepts exactly when the timestamp header is numeric and within 300
/// seconds of `now` and the signature header equals the recomputed
/// signature.  A missing or stale header is `BadRequest`; a present, fresh
/// but different signature is `Unauthorized`.
pub fn verify_slack_signature(
    timestamp_header: Option<&str>,
    signature_header: Option<&str>,
    body: &str,
    signing_secret: &str,
    now: u64,
) -> (r: Result<(), SignatureError>)
    ensures
        r == Ok::<(), SignatureError>(()) <==> timestamp_ok(timestamp_header, now)
            && signature_matches(timestamp_header, signature_header, signing_secret@, body@),
        r == Err::<(), SignatureError>(SignatureError::BadRequest) <==> (!timestamp_ok(
            timestamp_header,
            now,
        ) || signature_header is None),
        r == Err::<(), SignatureError>(SignatureError::Unauthorized) <==> (timestamp_ok(
            timestamp_header,
            now,
        ) && signature_header is Some && !signature_matches(
            timestamp_header,
            signature_header,
            signing_secret@,
            body@,
        )),
{
    let ts_str = match timestamp_header {
        Some(t) => t,
        None => {
            return Err(SignatureError::BadRequest);
        },
    };
    let ts = match parse_u64(ts_str) {
        Some(v) => v,
        None => {
            return Err(SignatureError::BadRequest);
        },
    };
    let diff = if now >= ts {
        now - ts
    } else {
        ts - now
    };
    if diff > 300 {
        return Err(SignatureError::BadRequest);
    }
    let ts_render = u64_to_string(ts);
    let mut base = String::from_str("v0:");
    base.append(ts_render.as_str());
    base.append(":");
    base.append(body);
    proof {
        assert(base@ =~= sig_base_spec(ts, body@));
    }
    let digest = hmac_sha256(signing_secret, base.as_str());
    let hex_digest = hex_encode(&digest);
    let mut expected = String::from_str("v0=");
    expected.append(hex_digest.as_str());
    proof {
        assert(expected@ =~= expected_signature_spec(signing_secret@, ts, body@));
    }
    let received = match signature_header {
        Some(s) => s,
        None => {
            return Err(SignatureError::BadRequest);
        },
    };
    if str_eq(received, expected.as_str()) {
        Ok(())
    } else {
        Err(SignatureError::Unauthorized)
    }
}

} // verus!
