use clip_relay::clock::{epoch_to_iso, iso_text, iso_to_epoch, now_unix, opt_epoch_to_iso};
use clip_relay::cookie::{has_cookie, request_scheme};
use clip_relay::number::{i64_text, parse_i64, parse_unsigned, u64_text};
use clip_relay::text::{
    ends_with, has_piece, is_whitespace, same, split, starts_with, strip_prefix, to_lower, trim,
};
use clip_relay::token::{new_id, new_token, password_hash, to_hex, token_from_bytes};

#[test]
fn white_space_is_that_of_std() {
    for code in 0..=0x10ffffu32 {
        if let Some(c) = char::from_u32(code) {
            assert_eq!(is_whitespace(c), c.is_whitespace(), "U+{code:x}");
        }
    }
}

#[test]
fn trimming_is_that_of_std() {
    for s in ["", " ", "a", "  a b ", "\t\n x\u{3000}", "\u{a0}é\u{2003}", "a ", " a"] {
        assert_eq!(trim(s), s.trim());
    }
}

#[test]
fn splitting_is_that_of_std() {
    for s in ["", ";", "a", "a;b", ";;", "a;;b;", "ü;ß"] {
        let expected: Vec<String> = s.split(';').map(|p| p.to_string()).collect();
        assert_eq!(split(s, ';'), expected);
    }
}

#[test]
fn comparing_and_cutting() {
    assert!(same("a", "a"));
    assert!(!same("a", "A"));
    assert!(starts_with("Bearer x", "Bearer "));
    assert!(!starts_with("Bear", "Bearer "));
    assert!(ends_with("a.js", ".js"));
    assert!(!ends_with("js", ".js"));
    assert_eq!(strip_prefix("file:/x", "file:"), Some("/x".to_string()));
    assert_eq!(strip_prefix("sqlite:/x", "file:"), None);
    assert_eq!(to_lower("HTTPS-É"), "https-É");
    assert!(has_piece("a, b ,c", ',', "b"));
    assert!(!has_piece("a, b ,c", ',', "b "));
}

#[test]
fn integers_are_read_as_by_std() {
    for s in [
        "", "0", "-0", "+0", "7", "-7", "+7", "007", "--7", "+-7", "-", "+", " 7", "7 ", "7a", "1_0",
        "9223372036854775807", "9223372036854775808", "-9223372036854775808",
        "-9223372036854775809", "99999999999999999999999", "٣",
    ] {
        assert_eq!(parse_i64(s), s.parse::<i64>().ok(), "{s:?}");
        assert_eq!(parse_unsigned(s, u64::MAX), s.parse::<u64>().ok(), "{s:?}");
        assert_eq!(parse_unsigned(s, u16::MAX as u64), s.parse::<u16>().ok().map(u64::from), "{s:?}");
    }
}

#[test]
fn integers_are_written_as_by_std() {
    for n in [0, 1, 9, 10, 99, 100, 1234567890, u64::MAX] {
        assert_eq!(u64_text(n), n.to_string());
    }
    for n in [0, -1, 10, -10, i64::MAX, i64::MIN] {
        assert_eq!(i64_text(n), n.to_string());
        assert_eq!(parse_i64(&i64_text(n)), Some(n));
    }
}

#[test]
fn timestamps_have_rfc3339_texts() {
    assert_eq!(epoch_to_iso(0), "1970-01-01T00:00:00Z");
    assert_eq!(epoch_to_iso(1000000000), "2001-09-09T01:46:40Z");
    assert_eq!(epoch_to_iso(1700000000), "2023-11-14T22:13:20Z");
    assert_eq!(epoch_to_iso(253402300799), "9999-12-31T23:59:59Z");
    assert_eq!(epoch_to_iso(-62167219200), "0000-01-01T00:00:00Z");
    assert_eq!(opt_epoch_to_iso(None), None);
    assert_eq!(opt_epoch_to_iso(Some(0)), Some("1970-01-01T00:00:00Z".to_string()));
}

#[test]
fn timestamps_without_a_text() {
    assert_eq!(epoch_to_iso(-62167219201), "");
    assert_eq!(epoch_to_iso(-377705116800), "");
    assert_eq!(iso_text(-377705116800, "now".to_string()), "");
    assert_eq!(iso_text(0, "now".to_string()), "1970-01-01T00:00:00Z");
    for ts in [253402300800, -377705116801, i64::MAX, i64::MIN] {
        let text = epoch_to_iso(ts);
        let told = iso_to_epoch(&text).unwrap();
        assert!(text.len() >= 20 && text.ends_with('Z'));
        assert_eq!(iso_text(ts, "now".to_string()), "now");
        assert!((told - now_unix()).abs() <= 5);
    }
}

#[test]
fn rfc3339_texts_are_read() {
    assert_eq!(iso_to_epoch("2023-11-14T22:13:20Z"), Some(1700000000));
    assert_eq!(iso_to_epoch("2023-11-14T23:13:20.5+01:00"), Some(1700000000));
    assert_eq!(iso_to_epoch("yesterday"), None);
    for ts in [-62167219200, -1, 0, 951782400, 1700000000, 253402300799] {
        let text = epoch_to_iso(ts);
        assert_eq!(iso_to_epoch(&text), Some(ts));
        assert_eq!(text.len(), 20);
        assert!(text.ends_with('Z'));
    }
}

#[test]
fn the_clock_runs() {
    assert!(now_unix() > 1700000000);
}

#[test]
fn tokens_are_base64() {
    let mut bytes = [0u8; 18];
    for (i, b) in bytes.iter_mut().enumerate() {
        *b = i as u8;
    }
    assert_eq!(token_from_bytes(&bytes), "AAECAwQFBgcICQoLDA0ODxAR");
    assert_eq!(token_from_bytes(&[255; 18]), "________________________");
    let mut other = bytes;
    other[17] = 18;
    assert_ne!(token_from_bytes(&bytes), token_from_bytes(&other));
}

#[test]
fn fresh_tokens_and_identifiers() {
    let t = new_token();
    assert_eq!(t.len(), 24);
    assert!(t.chars().all(|c| c.is_ascii_alphanumeric() || c == '-' || c == '_'));
    assert_ne!(t, new_token());
    let id = new_id();
    assert_eq!(id.len(), 36);
    assert_eq!(&id[14..15], "4");
    assert!("89ab".contains(&id[19..20]));
    assert!(id.chars().enumerate().all(|(i, c)| match i {
        8 | 13 | 18 | 23 => c == '-',
        _ => c.is_ascii_digit() || ('a'..='f').contains(&c),
    }));
    assert_ne!(id, new_id());
}

#[test]
fn password_hashes() {
    assert_eq!(
        password_hash("secret", "tok"),
        "85c152378090175f6d33d03da25b04c945aa98dc1f8fd2e2c92ae51fd4171c7c"
    );
    assert_eq!(
        password_hash("pässwort", "AAECAwQFBgcICQoLDA0ODxAR"),
        "bd80653877d0577e16ad0ff01bca9354b65616fd3c3d02bfc9d6106b31c18267"
    );
    assert_eq!(to_hex(&vec![0x00, 0x9f, 0xa0, 0xff]), "009fa0ff");
}

#[test]
fn cookies_in_a_header() {
    assert!(has_cookie("a=1; auth=x; b=2", "auth=x"));
    assert!(has_cookie("auth=x", "auth=x"));
    assert!(!has_cookie("a=1; auth=xy", "auth=x"));
    assert!(!has_cookie("", "auth=x"));
    assert_eq!(request_scheme(Some("HTTPS")), "https");
    assert_eq!(request_scheme(None), "http");
}
