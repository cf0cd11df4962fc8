use hmac::{Hmac, KeyInit, Mac};
use sha2::Sha256;
use slack_sat_bot::signature::{verify_slack_signature, SignatureError};

fn sign(secret: &str, timestamp: u64, body: &str) -> String {
    let base = format!("v0:{}:{}", timestamp, body);
    let mut mac = <Hmac<Sha256> as KeyInit>::new_from_slice(secret.as_bytes()).unwrap();
    mac.update(base.as_bytes());
    format!("v0={}", hex::encode(mac.finalize().into_bytes()))
}

#[test]
fn correct_signature_within_window_passes() {
    let secret = "signing-key";
    let ts = 1_700_000_000u64;
    let body = "payload=%7B%22type%22%3A%22block_actions%22%7D";
    let sig = sign(secret, ts, body);
    let ts_str = ts.to_string();
    let r = verify_slack_signature(Some(&ts_str), Some(&sig), body, secret, ts + 12);
    assert_eq!(r, Ok(()));
}

#[test]
fn boundary_of_the_freshness_window() {
    let secret = "k";
    let ts = 1_700_000_000u64;
    let body = "b";
    let sig = sign(secret, ts, body);
    let ts_str = ts.to_string();
    // 300 seconds is still fresh; 301 is stale.
    assert_eq!(verify_slack_signature(Some(&ts_str), Some(&sig), body, secret, ts + 300), Ok(()));
    assert_eq!(
        verify_slack_signature(Some(&ts_str), Some(&sig), body, secret, ts + 301),
        Err(SignatureError::BadRequest)
    );
}

#[test]
fn altered_signature_is_unauthorized() {
    let secret = "k";
    let ts = 1_700_000_000u64;
    let body = "b";
    let sig = sign(secret, ts, body);
    let mut bytes = sig.into_bytes();
    let last = *bytes.last().unwrap();
    *bytes.last_mut().unwrap() = if last == b'0' { b'1' } else { b'0' };
    let altered = String::from_utf8(bytes).unwrap();
    let ts_str = ts.to_string();
    assert_eq!(
        verify_slack_signature(Some(&ts_str), Some(&altered), body, secret, ts),
        Err(SignatureError::Unauthorized)
    );
}

#[test]
fn wrong_secret_is_unauthorized() {
    let ts = 1_700_000_000u64;
    let body = "b";
    let sig = sign("other", ts, body);
    let ts_str = ts.to_string();
    assert_eq!(
        verify_slack_signature(Some(&ts_str), Some(&sig), body, "k", ts),
        Err(SignatureError::Unauthorized)
    );
}

#[test]
fn missing_or_malformed_headers_are_bad_requests() {
    let r = verify_slack_signature(None, Some("v0=00"), "b", "k", 10);
    assert_eq!(r, Err(SignatureError::BadRequest));
    let r = verify_slack_signature(Some("not-a-number"), Some("v0=00"), "b", "k", 10);
    assert_eq!(r, Err(SignatureError::BadRequest));
    let r = verify_slack_signature(Some("10"), None, "b", "k", 10);
    assert_eq!(r, Err(SignatureError::BadRequest));
}

#[test]
fn timestamp_in_the_future_counts_like_the_past() {
    let secret = "k";
    let ts = 1_700_000_000u64;
    let body = "b";
    let sig = sign(secret, ts, body);
    let ts_str = ts.to_string();
    assert_eq!(verify_slack_signature(Some(&ts_str), Some(&sig), body, secret, ts - 300), Ok(()));
    assert_eq!(
        verify_slack_signature(Some(&ts_str), Some(&sig), body, secret, ts - 301),
        Err(SignatureError::BadRequest)
    );
}
