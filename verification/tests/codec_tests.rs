use mailcore::codec::{decode_address, encode_address, parse_email_id};
use mailcore::errors::MailError;

#[test]
fn encode_builds_colon_separated_id() {
    assert_eq!(encode_address("acme", "INBOX", 42), "acme:INBOX:42");
    assert_eq!(encode_address("a", "Sent", 0), "a:Sent:0");
}

#[test]
fn round_trip_returns_the_triple() {
    let id = encode_address("acme", "Sent", 7);
    assert_eq!(
        parse_email_id(&id),
        Some(("acme".to_string(), "Sent".to_string(), 7))
    );
    let id2 = encode_address("", "", u32::MAX);
    assert_eq!(
        parse_email_id(&id2),
        Some((String::new(), String::new(), u32::MAX))
    );
}

#[test]
fn decode_rejects_missing_delimiters() {
    assert!(parse_email_id("abc").is_none());
    assert!(parse_email_id("a:1").is_none());
    assert!(parse_email_id("").is_none());
}

#[test]
fn decode_rejects_bad_uid_segment() {
    assert!(parse_email_id("a:b:").is_none());
    assert!(parse_email_id("a:b:12x").is_none());
    assert!(parse_email_id("a:b:-1").is_none());
    // the segment after the second delimiter is taken whole, not re-split
    assert!(parse_email_id("a:b:c:1").is_none());
    // value must fit an unsigned 32-bit integer
    assert!(parse_email_id("a:b:4294967296").is_none());
    assert_eq!(parse_email_id("a:b:4294967295").map(|t| t.2), Some(u32::MAX));
    // unsigned parsing accepts one leading plus sign
    assert_eq!(parse_email_id("a:b:+42").map(|t| t.2), Some(42));
}

#[test]
fn decode_address_reports_invalid() {
    match decode_address("nope") {
        Err(e) => assert_eq!(e, MailError::InvalidAddress),
        Ok(_) => panic!("malformed address must be rejected"),
    }
    match decode_address("acme:INBOX:5") {
        Ok(a) => {
            assert_eq!(a.account_id, "acme");
            assert_eq!(a.folder, "INBOX");
            assert_eq!(a.uid, 5);
        }
        Err(_) => panic!("well-formed address must decode"),
    }
}
